use vstd::prelude::*;

use crate::text::str_eq;

verus! {

/// The work the workspace task runner knows how to dispatch. Each task maps
/// to one cargo invocation, except `Init`, which sets up grammar assets
/// through other tooling.
#[derive(Clone, Copy, PartialEq, Eq, Structural, Debug)]
pub enum Task {
    Build,
    Check,
    Clippy,
    Doc,
    Format,
    Init,
    Install,
    Test,
    Udeps,
}

/// The position of the last path separator strictly before position `k`, or
/// a negative value when there is none.
pub open spec fn last_sep(s: Seq<char>, k: int) -> int
    decreases k,
{
    if k <= 0 {
        -1
    } else if s[k - 1] == '/' {
        k - 1
    } else {
        last_sep(s, k - 1)
    }
}

/// The parent of a path: its text up to the last separator, or nothing when
/// it has no separator.
pub open spec fn parent_dir(s: Seq<char>) -> Seq<char> {
    if last_sep(s, s.len() as int) < 0 {
        Seq::<char>::empty()
    } else {
        s.take(last_sep(s, s.len() as int))
    }
}

/// What each item of an argument list contributes to the unused-arguments
/// message: a space, then the item.
pub open spec fn joined(items: Seq<Seq<char>>) -> Seq<char>
    decreases items.len(),
{
    if items.len() == 0 {
        Seq::<char>::empty()
    } else {
        joined(items.drop_last()) + " "@ + items.last()
    }
}

/// The name under which the cargo wrapper is invoked. The wrapper is used
/// rather than a reported binary path so that toolchain selectors still work.
pub fn cargo() -> (r: String)
    ensures
        r@ == "cargo"@,
{
    String::from_str("cargo")
}

/// The workspace root: the parent directory of the given manifest directory.
pub fn project_root(manifest_dir: &str) -> (r: String)
    ensures
        r@ == parent_dir(manifest_dir@),
{
    let n = manifest_dir.unicode_len();
    let mut k = n;
    while k > 0
        invariant
            k <= n,
            n == manifest_dir@.len(),
            last_sep(manifest_dir@, n as int) == last_sep(manifest_dir@, k as int),
        decreases k,
    {
        if manifest_dir.get_char(k - 1) == '/' {
            return String::from_str(manifest_dir.substring_char(0, k - 1));
        }
        k -= 1;
    }
    String::new()
}

/// Maps a subcommand name to the task it denotes; unknown names denote none.
pub fn task_for_name(name: &str) -> (r: Option<Task>)
    ensures
        r == Some(Task::Build) <==> name@ == "build"@,
        r == Some(Task::Check) <==> name@ == "check"@,
        r == Some(Task::Clippy) <==> name@ == "clippy"@,
        r == Some(Task::Doc) <==> name@ == "doc"@,
        r == Some(Task::Format) <==> name@ == "format"@,
        r == Some(Task::Init) <==> name@ == "init"@,
        r == Some(Task::Install) <==> name@ == "install"@,
        r == Some(Task::Test) <==> name@ == "test"@,
        r == Some(Task::Udeps) <==> name@ == "udeps"@,
{
    proof {
        reveal_strlit("build");
        reveal_strlit("check");
        reveal_strlit("clippy");
        reveal_strlit("doc");
        reveal_strlit("format");
        reveal_strlit("init");
        reveal_strlit("install");
        reveal_strlit("test");
        reveal_strlit("udeps");
        assert("build"@[0] != "check"@[0]);
        assert("build"@ != "check"@);
        assert("build"@.len() != "clippy"@.len());
        assert("build"@ != "clippy"@);
        assert("build"@.len() != "doc"@.len());
        assert("build"@ != "doc"@);
        assert("build"@.len() != "format"@.len());
        assert("build"@ != "format"@);
        assert("build"@.len() != "init"@.len());
        assert("build"@ != "init"@);
        assert("build"@.len() != "install"@.len());
        assert("build"@ != "install"@);
        assert("build"@.len() != "test"@.len());
        assert("build"@ != "test"@);
        assert("build"@[0] != "udeps"@[0]);
        assert("build"@ != "udeps"@);
        assert("check"@.len() != "clippy"@.len());
        assert("check"@ != "clippy"@);
        assert("check"@.len() != "doc"@.len());
        assert("check"@ != "doc"@);
        assert("check"@.len() != "format"@.len());
        assert("check"@ != "format"@);
        assert("check"@.len() != "init"@.len());
        assert("check"@ != "init"@);
        assert("check"@.len() != "install"@.len());
        assert("check"@ != "install"@);
        assert("check"@.len() != "test"@.len());
        assert("check"@ != "test"@);
        assert("check"@[0] != "udeps"@[0]);
        assert("check"@ != "udeps"@);
        assert("clippy"@.len() != "doc"@.len());
        assert("clippy"@ != "doc"@);
        assert("clippy"@[0] != "format"@[0]);
        assert("clippy"@ != "format"@);
        assert("clippy"@.len() != "init"@.len());
        assert("clippy"@ != "init"@);
        assert("clippy"@.len() != "install"@.len());
        assert("clippy"@ != "install"@);
        assert("clippy"@.len() != "test"@.len());
        assert("clippy"@ != "test"@);
        assert("clippy"@.len() != "udeps"@.len());
        assert("clippy"@ != "udeps"@);
        assert("doc"@.len() != "format"@.len());
        assert("doc"@ != "format"@);
        assert("doc"@.len() != "init"@.len());
        assert("doc"@ != "init"@);
        assert("doc"@.len() != "install"@.len());
        assert("doc"@ != "install"@);
        assert("doc"@.len() != "test"@.len());
        assert("doc"@ != "test"@);
        assert("doc"@.len() != "udeps"@.len());
        assert("doc"@ != "udeps"@);
        assert("format"@.len() != "init"@.len());
        assert("format"@ != "init"@);
        assert("format"@.len() != "install"@.len());
        assert("format"@ != "install"@);
        assert("format"@.len() != "test"@.len());
        assert("format"@ != "test"@);
        assert("format"@.len() != "udeps"@.len());
        assert("format"@ != "udeps"@);
        assert("init"@.len() != "install"@.len());
        assert("init"@ != "install"@);
        assert("init"@[0] != "test"@[0]);
        assert("init"@ != "test"@);
        assert("init"@.len() != "udeps"@.len());
        assert("init"@ != "udeps"@);
        assert("install"@.len() != "test"@.len());
        assert("install"@ != "test"@);
        assert("install"@.len() != "udeps"@.len());
        assert("install"@ != "udeps"@);
        assert("test"@.len() != "udeps"@.len());
        assert("test"@ != "udeps"@);
    }
    if str_eq(name, "build") {
        Some(Task::Build)
    } else if str_eq(name, "check") {
        Some(Task::Check)
    } else if str_eq(name, "clippy") {
        Some(Task::Clippy)
    } else if str_eq(name, "doc") {
        Some(Task::Doc)
    } else if str_eq(name, "format") {
        Some(Task::Format)
    } else if str_eq(name, "init") {
        Some(Task::Init)
    } else if str_eq(name, "install") {
        Some(Task::Install)
    } else if str_eq(name, "test") {
        Some(Task::Test)
    } else if str_eq(name, "udeps") {
        Some(Task::Udeps)
    } else {
        None
    }
}

/// The fixed arguments of each task's cargo invocation; `Init` runs no cargo
/// command and has none.
pub open spec fn task_args_spec(t: Task) -> Seq<Seq<char>> {
    match t {
        Task::Build => seq!["build"@, "--package"@, "tree-sitter-facade"@],
        Task::Check => seq![
            "check"@,
            "--all-targets"@,
            "--package"@,
            "xtask"@,
            "--package"@,
            "tree-sitter-facade"@,
        ],
        Task::Clippy => seq![
            "+nightly"@,
            "clippy"@,
            "--all-targets"@,
            "--package"@,
            "xtask"@,
            "--package"@,
            "tree-sitter-facade"@,
        ],
        Task::Doc => seq!["+nightly"@, "doc"@],
        Task::Format => seq!["+nightly"@, "fmt"@, "--all"@],
        Task::Init => Seq::<Seq<char>>::empty(),
        Task::Install => seq!["install"@, "--path"@, "crates/cli"@],
        Task::Test => seq![
            "test"@,
            "--examples"@,
            "--lib"@,
            "--tests"@,
            "--package"@,
            "xtask"@,
            "--package"@,
            "tree-sitter-facade"@,
        ],
        Task::Udeps => seq![
            "+nightly"@,
            "udeps"@,
            "--all-targets"@,
            "--package"@,
            "xtask"@,
            "--package"@,
            "tree-sitter-facade"@,
        ],
    }
}

fn push_str_item(out: &mut Vec<String>, item: &str)
    ensures
        final(out)@.map_values(|s: String| s@) == old(out)@.map_values(|s: String| s@).push(
            item@,
        ),
{
    out.push(String::from_str(item));
    proof {
        assert(final(out)@.map_values(|s: String| s@) =~= old(out)@.map_values(|s: String| s@)
            .push(item@));
    }
}

/// The fixed arguments of the cargo run one task stands for.
pub fn cargo_args(t: &Task) -> (r: Vec<String>)
    ensures
        r@.map_values(|s: String| s@) == task_args_spec(*t),
{
    let mut r: Vec<String> = Vec::new();
    proof {
        assert(r@.map_values(|s: String| s@) =~= Seq::<Seq<char>>::empty());
    }
    match t {
        Task::Build => {
            push_str_item(&mut r, "build");
            push_str_item(&mut r, "--package");
            push_str_item(&mut r, "tree-sitter-facade");
        },
        Task::Check => {
            push_str_item(&mut r, "check");
            push_str_item(&mut r, "--all-targets");
            push_str_item(&mut r, "--package");
            push_str_item(&mut r, "xtask");
            push_str_item(&mut r, "--package");
            push_str_item(&mut r, "tree-sitter-facade");
        },
        Task::Clippy => {
            push_str_item(&mut r, "+nightly");
            push_str_item(&mut r, "clippy");
            push_str_item(&mut r, "--all-targets");
            push_str_item(&mut r, "--package");
            push_str_item(&mut r, "xtask");
            push_str_item(&mut r, "--package");
            push_str_item(&mut r, "tree-sitter-facade");
        },
        Task::Doc => {
            push_str_item(&mut r, "+nightly");
            push_str_item(&mut r, "doc");
        },
        Task::Format => {
            push_str_item(&mut r, "+nightly");
            push_str_item(&mut r, "fmt");
            push_str_item(&mut r, "--all");
        },
        Task::Init => {},
        Task::Install => {
            push_str_item(&mut r, "install");
            push_str_item(&mut r, "--path");
            push_str_item(&mut r, "crates/cli");
        },
        Task::Test => {
            push_str_item(&mut r, "test");
            push_str_item(&mut r, "--examples");
            push_str_item(&mut r, "--lib");
            push_str_item(&mut r, "--tests");
            push_str_item(&mut r, "--package");
            push_str_item(&mut r, "xtask");
            push_str_item(&mut r, "--package");
            push_str_item(&mut r, "tree-sitter-facade");
        },
        Task::Udeps => {
            push_str_item(&mut r, "+nightly");
            push_str_item(&mut r, "udeps");
            push_str_item(&mut r, "--all-targets");
            push_str_item(&mut r, "--package");
            push_str_item(&mut r, "xtask");
            push_str_item(&mut r, "--package");
            push_str_item(&mut r, "tree-sitter-facade");
        },
    }
    proof {
        assert(r@.map_values(|s: String| s@) =~= task_args_spec(*t));
    }
    r
}

/// Whether the cargo run turns warnings into errors through its
/// environment.
pub fn sets_deny_warnings(t: &Task) -> (r: bool)
    ensures
        r == (*t is Check || *t is Test),
{
    match t {
        Task::Check => true,
        Task::Test => true,
        _ => false,
    }
}

/// The arguments appended after any caller extras: the lint gate that the
/// lint task passes through to the tool.
pub fn trailing_args(t: &Task) -> (r: Vec<String>)
    ensures
        *t is Clippy ==> r@.map_values(|s: String| s@) == seq!["--"@, "-D"@, "warnings"@],
        !(*t is Clippy) ==> r@.map_values(|s: String| s@) == Seq::<Seq<char>>::empty(),
{
    let mut r: Vec<String> = Vec::new();
    proof {
        assert(r@.map_values(|s: String| s@) =~= Seq::<Seq<char>>::empty());
    }
    match t {
        Task::Clippy => {
            push_str_item(&mut r, "--");
            push_str_item(&mut r, "-D");
            push_str_item(&mut r, "warnings");
            proof {
                assert(r@.map_values(|s: String| s@) =~= seq!["--"@, "-D"@, "warnings"@]);
            }
        },
        _ => {},
    }
    r
}

/// The complaint raised for arguments nothing consumed: absent when there are
/// none, and otherwise naming each, space-separated, in the order given.
pub fn unused_args_message(unused: &Vec<String>) -> (r: Option<String>)
    ensures
        unused@.len() == 0 ==> r is None,
        unused@.len() > 0 ==> (r matches Some(m) && m@ == "unrecognized arguments '"@ + joined(
            unused@.map_values(|s: String| s@),
        ) + "'"@),
{
    if unused.len() == 0 {
        return None;
    }
    let mut m = String::from_str("unrecognized arguments '");
    let mut i: usize = 0;
    while i < unused.len()
        invariant
            i <= unused@.len(),
            m@ == "unrecognized arguments '"@ + joined(
                unused@.map_values(|s: String| s@).take(i as int),
            ),
        decreases unused@.len() - i,
    {
        m.append(" ");
        m.append(unused[i].as_str());
        proof {
            let views = unused@.map_values(|s: String| s@);
            assert(views.take(i as int + 1).drop_last() =~= views.take(i as int));
            assert(views.take(i as int + 1).last() == views[i as int]);
        }
        i += 1;
    }
    proof {
        let views = unused@.map_values(|s: String| s@);
        assert(views.take(unused@.len() as int) =~= views);
    }
    m.append("'");
    Some(m)
}

/// The complaint raised for a subcommand name the runner does not know.
pub fn unknown_subcommand_message(name: &str) -> (r: String)
    ensures
        r@ == "unknown subcommand: "@ + name@,
{
    let mut m = String::from_str("unknown subcommand: ");
    m.append(name);
    m
}

} // verus!
