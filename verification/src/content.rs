use vstd::prelude::*;
use vstd::string::StringExecFns;

use crate::ownership::PackOwnership;

verus! {

/// The fixed body shared by every generated source file.
pub open spec fn spec_file_contents() -> Seq<char> {
    "
  def method_1
    puts 'hello'
  end  

  def method_2
      puts 'hello 2'
  end

  def method_3
     puts 'met'
  end

  The borrow checker is an essential feature of the Rust language and part of what makes Rust Rust. It helps you (or forces you) to manage ownership. As chapter four of \u{201c}The Rust Programming Language\u{201d} puts it, \u{201c}Ownership is Rust\u{2019}s most unique feature, and it enables Rust to make memory safety guarantees without needing a garbage collector.\u{201d}

In the last few sentences, we\u{2019}ve mentioned ownership, borrow checker, and garbage collectors. There\u{2019}s a lot to unpack there, so let\u{2019}s break it down a bit. In this guide, we\u{2019}ll look at what the borrow checker does for us (and what it stops us from doing), what guarantees it gives us, and how it compares to other forms of memory management.

I\u{2019}ll assume that you have some experience writing code in higher-level languages such as Python, JavaScript, and C#, but not necessarily that you\u{2019}re familiar with how computer memory works.

Your programs have access to two kinds of memory where they can store values: the stack and the heap. These differ in several ways, but for our sake, the most important difference is that data stored on the stack must have a known, fixed size. Data on the heap can be of any arbitrary size.

What do I mean by size? Size refers to how many bytes it takes to store the data. In broad terms, certain data types, such as Booleans, characters, and integers, have a fixed size. These are easy to put on the stack. On the other hand, data types such as strings, lists, and other collections can be of any arbitrary size. As such, they cannot be stored on the stack. We must instead use the heap.

Because data of arbitrary size can be stored on the heap, the computer needs to find a chunk of memory large enough to fit whatever we\u{2019}re looking to store. This is time-consuming, and the program doesn\u{2019}t have direct access to the data as with the stack. Instead, it\u{2019}s left with a pointer to where the data is stored.

A pointer is pretty much what it says on the tin: it points to some memory address on the heap where the data you\u{2019}re looking for can be found. There are several pointer tutorials available on the web, and which one works for you depends on your background.

What\u{2019}s the point of having these two different memory stores? Because of the way the stack works, data access on the stack is fast and easy but requires the data to conform to certain standards. The heap is slower but more versatile and is thus useful when you can\u{2019}t use the stack.
"@
}

pub fn file_contents() -> (r: &'static str)
    ensures
        r@ == spec_file_contents(),
{
    "
  def method_1
    puts 'hello'
  end  

  def method_2
      puts 'hello 2'
  end

  def method_3
     puts 'met'
  end

  The borrow checker is an essential feature of the Rust language and part of what makes Rust Rust. It helps you (or forces you) to manage ownership. As chapter four of \u{201c}The Rust Programming Language\u{201d} puts it, \u{201c}Ownership is Rust\u{2019}s most unique feature, and it enables Rust to make memory safety guarantees without needing a garbage collector.\u{201d}

In the last few sentences, we\u{2019}ve mentioned ownership, borrow checker, and garbage collectors. There\u{2019}s a lot to unpack there, so let\u{2019}s break it down a bit. In this guide, we\u{2019}ll look at what the borrow checker does for us (and what it stops us from doing), what guarantees it gives us, and how it compares to other forms of memory management.

I\u{2019}ll assume that you have some experience writing code in higher-level languages such as Python, JavaScript, and C#, but not necessarily that you\u{2019}re familiar with how computer memory works.

Your programs have access to two kinds of memory where they can store values: the stack and the heap. These differ in several ways, but for our sake, the most important difference is that data stored on the stack must have a known, fixed size. Data on the heap can be of any arbitrary size.

What do I mean by size? Size refers to how many bytes it takes to store the data. In broad terms, certain data types, such as Booleans, characters, and integers, have a fixed size. These are easy to put on the stack. On the other hand, data types such as strings, lists, and other collections can be of any arbitrary size. As such, they cannot be stored on the stack. We must instead use the heap.

Because data of arbitrary size can be stored on the heap, the computer needs to find a chunk of memory large enough to fit whatever we\u{2019}re looking to store. This is time-consuming, and the program doesn\u{2019}t have direct access to the data as with the stack. Instead, it\u{2019}s left with a pointer to where the data is stored.

A pointer is pretty much what it says on the tin: it points to some memory address on the heap where the data you\u{2019}re looking for can be found. There are several pointer tutorials available on the web, and which one works for you depends on your background.

What\u{2019}s the point of having these two different memory stores? Because of the way the stack works, data access on the stack is fast and easy but requires the data to conform to certain standards. The heap is slower but more versatile and is thus useful when you can\u{2019}t use the stack.
"
}

/// The fixed default ownership config installed at the application root.
pub open spec fn spec_default_code_ownership_yml() -> Seq<char> {
    "
---
owned_globs:
  - \"{app,components,config,frontend,lib,packs,spec}/**/*.{rb,rake,js,jsx,ts,tsx,json,yml}\"
unowned_globs:
  - config/code_ownership.yml
javascript_package_paths:
  - javascript/packages/**
vendored_gems_path: gems
team_file_glob:
  - config/teams/**/*.yml
        "@
}

pub fn default_code_ownership_yml() -> (r: String)
    ensures
        r@ == spec_default_code_ownership_yml(),
{
    let mut r = String::new();
    r.append(
        "
---
owned_globs:
  - \"{app,components,config,frontend,lib,packs,spec}/**/*.{rb,rake,js,jsx,ts,tsx,json,yml}\"
unowned_globs:
  - config/code_ownership.yml
javascript_package_paths:
  - javascript/packages/**
vendored_gems_path: gems
team_file_glob:
  - config/teams/**/*.yml
        ",
    );
    proof {
        assert(r@ =~= spec_default_code_ownership_yml());
    }
    r
}

/// The fixed descriptor of the bootstrap team "infra", written once per
/// run; it owns the scaffolded application files.
pub open spec fn spec_default_infra_team_yml() -> Seq<char> {
    "
name: infra
github:
  team: '@infra'
  members:
  - infra member
owned_globs:
- app/**
- config/application.rb
- config/boot.rb
- config/cable.yml
- config/database.yml
- config/environment.rb
- config/environments/development.rb
- config/environments/production.rb
- config/environments/test.rb
- config/importmap.rb
- config/initializers/assets.rb
- config/initializers/content_security_policy.rb
- config/initializers/filter_parameter_logging.rb
- config/initializers/inflections.rb
- config/initializers/permissions_policy.rb
- config/locales/en.yml
- config/puma.rb
- config/routes.rb
- config/storage.yml
- config/cache.yml
- config/deploy.yml
- config/queue.yml
- config/recurring.yml- config/cache.yml
- config/deploy.yml
- config/queue.yml
- config/recurring.yml

"@
}

pub fn default_infra_team_yml() -> (r: String)
    ensures
        r@ == spec_default_infra_team_yml(),
{
    let mut r = String::new();
    r.append(
        "
name: infra
github:
  team: '@infra'
  members:
  - infra member
owned_globs:
- app/**
- config/application.rb
- config/boot.rb
- config/cable.yml
- config/database.yml
- config/environment.rb
- config/environments/development.rb
- config/environments/production.rb
- config/environments/test.rb
- config/importmap.rb
- config/initializers/assets.rb
- config/initializers/content_security_policy.rb
- config/initializers/filter_parameter_logging.rb
- config/initializers/inflections.rb
- config/initializers/permissions_policy.rb
- config/locales/en.yml
- config/puma.rb
- config/routes.rb
- config/storage.yml
- config/cache.yml
- config/deploy.yml
- config/queue.yml
- config/recurring.yml- config/cache.yml
- config/deploy.yml
- config/queue.yml
- config/recurring.yml

",
    );
    proof {
        assert(r@ =~= spec_default_infra_team_yml());
    }
    r
}

/// The ownership header prepended to a source file when the scheme is
/// `FileAnnotation`: `# @team {team}`.
pub open spec fn spec_annotation_line(team: Seq<char>) -> Seq<char> {
    "# @team "@ + team + "\n"@
}

/// The stub body of one generated source file: a class named after the file.
pub open spec fn spec_code_stub(name: Seq<char>) -> Seq<char> {
    "class "@ + name + "\n"@ + spec_file_contents() + "\nend\n"@
}

/// The full contents of one generated source file.
pub open spec fn spec_code_file_content(name: Seq<char>, team: Seq<char>, annotate: bool) -> Seq<
    char,
> {
    (if annotate {
        spec_annotation_line(team)
    } else {
        Seq::empty()
    }) + spec_code_stub(name)
}

pub fn code_file_content(name: &str, team: &str, annotate: bool) -> (r: String)
    ensures
        r@ == spec_code_file_content(name@, team@, annotate),
{
    let mut r = String::new();
    if annotate {
        r.append("# @team ");
        r.append(team);
        r.append("\n");
    }
    r.append("class ");
    r.append(name);
    r.append("\n");
    r.append(file_contents());
    r.append("\nend\n");
    proof {
        assert(r@ =~= spec_code_file_content(name@, team@, annotate));
    }
    r
}

/// The descriptor base every team gets: its name and a synthetic maintainer.
pub open spec fn spec_team_config_base(team: Seq<char>) -> Seq<char> {
    "name: "@ + team + "\ngithub:\n  team: '@"@ + team + "'\n  members:\n    - "@ + team
        + " member\n"@
}

/// The owned-globs section a `TeamConfig` package adds to its team's
/// descriptor: one glob, the package path relative to the application root
/// with a recursive wildcard.
pub open spec fn spec_owned_globs_section(rel: Seq<char>) -> Seq<char> {
    "\nowned_globs:\n  - \""@ + rel + "/**\"\n"@
}

/// The full team descriptor for a team owning one package: the base part, and
/// the owned-globs section exactly when the scheme is `TeamConfig`.
pub open spec fn spec_team_config_content(
    team: Seq<char>,
    scheme: PackOwnership,
    rel: Seq<char>,
) -> Seq<char> {
    spec_team_config_base(team) + (if scheme is TeamConfig {
        spec_owned_globs_section(rel)
    } else {
        Seq::empty()
    })
}

} // verus!
