//! The program that packs the Python service into one file.

use crate::engine;
use crate::engine::split_lines;
use crate::text;
use crate::text::{
    chars_of, concat2, concat3, contains_text, join, number, same_text, starts_with, trim,
};
use vstd::prelude::*;

verus! {

/// What the packer is told.
pub const PYOXIDIZER_CONFIG: &'static str = r#"def make_exe():
    dist = default_python_distribution()
    policy = dist.make_python_packaging_policy()
    policy.extension_module_filter = "all"
    policy.resources_location = "filesystem-relative:prefix"

    python_config = dist.make_python_interpreter_config()
    python_config.run_module = "main"

    exe = dist.to_python_executable(
        name = "hexai",
        packaging_policy = policy,
        config = python_config,
    )
    exe.add_python_resources(exe.pip_install(["-r", "requirements.txt"]))
    return exe

def make_install(exe):
    files = FileManifest()
    files.add_python_resource(".", exe)
    return files

register_target("exe", make_exe)
register_target("install", make_install, depends=["exe"], default=True)
resolve_targets()
"#;

/// What is shown where help is asked for.
pub const BUILDER_HELP: &'static str =
    "HexAi Builder\n  --source <dir>   Katalog z kodem Python (default: ./source-code)\n  --out    <dir>   Katalog docelowy (default: .)\n  --no-cleanup     Nie usuwaj plików tymczasowych\n";

// ── Arguments ──

/// What is to be packed, where the result goes, and whether what was made on the
/// way is kept.
pub struct BuilderConfig {
    pub source_dir: String,
    pub out_dir: String,
    pub skip_cleanup: bool,
}

impl View for BuilderConfig {
    type V = (Seq<char>, Seq<char>, bool);

    open spec fn view(&self) -> (Seq<char>, Seq<char>, bool) {
        (self.source_dir@, self.out_dir@, self.skip_cleanup)
    }
}

/// What the arguments from place `i` on make of the settings so far. An argument
/// that takes a value takes the next one, where there is a next one; one that is
/// not known is passed over. There are no settings where help is asked for.
pub open spec fn settings_from(
    args: Seq<Seq<char>>,
    i: int,
    c: (Seq<char>, Seq<char>, bool),
) -> Option<(Seq<char>, Seq<char>, bool)>
    decreases args.len() - i,
{
    if i >= args.len() {
        Some(c)
    } else if args[i] == "--source"@ || args[i] == "-s"@ {
        if i + 1 < args.len() {
            settings_from(args, i + 2, (args[i + 1], c.1, c.2))
        } else {
            Some(c)
        }
    } else if args[i] == "--out"@ || args[i] == "-o"@ {
        if i + 1 < args.len() {
            settings_from(args, i + 2, (c.0, args[i + 1], c.2))
        } else {
            Some(c)
        }
    } else if args[i] == "--no-cleanup"@ {
        settings_from(args, i + 1, (c.0, c.1, true))
    } else if args[i] == "--help"@ || args[i] == "-h"@ {
        None
    } else {
        settings_from(args, i + 1, c)
    }
}

/// The settings without any argument.
pub open spec fn default_settings() -> (Seq<char>, Seq<char>, bool) {
    ("./source-code"@, "."@, false)
}

impl BuilderConfig {
    /// Reads the arguments, the first of which is the program itself. There are
    /// no settings where help is asked for.
    pub fn from_args(args: &Vec<String>) -> (r: Option<BuilderConfig>)
        ensures
            match r {
                Some(c) => settings_from(text::views(args@), 1, default_settings()) == Some(c@),
                None => settings_from(text::views(args@), 1, default_settings()) is None,
            },
    {
        let ghost all = text::views(args@);
        let n: usize = args.len();
        let mut source_dir: String = "./source-code".to_owned();
        let mut out_dir: String = ".".to_owned();
        let mut skip_cleanup: bool = false;
        let mut i: usize = 1;
        while i < n
            invariant
                all == text::views(args@),
                n == args@.len(),
                i >= 1,
                settings_from(all, i as int, (source_dir@, out_dir@, skip_cleanup))
                    == settings_from(all, 1, default_settings()),
            decreases n - i,
        {
            let arg: &str = args[i].as_str();
            proof {
                assert(all[i as int] == arg@);
            }
            if same_text(arg, "--source") || same_text(arg, "-s") {
                if i + 1 < n {
                    source_dir = args[i + 1].clone();
                    proof {
                        assert(all[i + 1] == source_dir@);
                    }
                    i = i + 2;
                } else {
                    i = i + 1;
                }
            } else if same_text(arg, "--out") || same_text(arg, "-o") {
                if i + 1 < n {
                    out_dir = args[i + 1].clone();
                    proof {
                        assert(all[i + 1] == out_dir@);
                    }
                    i = i + 2;
                } else {
                    i = i + 1;
                }
            } else if same_text(arg, "--no-cleanup") {
                skip_cleanup = true;
                i = i + 1;
            } else if same_text(arg, "--help") || same_text(arg, "-h") {
                return None;
            } else {
                i = i + 1;
            }
        }
        Some(BuilderConfig { source_dir, out_dir, skip_cleanup })
    }
}

/// Without arguments the settings are the default ones.
pub proof fn lemma_no_arguments(program: Seq<char>)
    ensures
        settings_from(seq![program], 1, default_settings()) == Some(default_settings()),
        settings_from(Seq::empty(), 1, default_settings()) == Some(default_settings()),
{
}

// ── Requirements ──

/// The packages that the service may need.
pub open spec fn packages() -> Seq<Seq<char>> {
    seq![
        "fastapi"@,
        "uvicorn"@,
        "transformers"@,
        "accelerate"@,
        "bitsandbytes"@,
        "torch"@,
        "ollama"@,
        "llama_index"@,
        "chromadb"@,
        "rank_bm25"@,
        "sentence_transformers"@,
        "diffusers"@,
        "duckduckgo_search"@,
        "pypdf"@,
        "beautifulsoup4"@,
        "docker"@,
        "redis"@,
        "soundfile"@,
        "rich"@,
        "pydantic"@,
        "requests"@,
    ]
}

fn known_packages() -> (r: Vec<String>)
    ensures
        text::views(r@) == packages(),
{
    let mut r: Vec<String> = Vec::new();
    r.push("fastapi".to_owned());
    r.push("uvicorn".to_owned());
    r.push("transformers".to_owned());
    r.push("accelerate".to_owned());
    r.push("bitsandbytes".to_owned());
    r.push("torch".to_owned());
    r.push("ollama".to_owned());
    r.push("llama_index".to_owned());
    r.push("chromadb".to_owned());
    r.push("rank_bm25".to_owned());
    r.push("sentence_transformers".to_owned());
    r.push("diffusers".to_owned());
    r.push("duckduckgo_search".to_owned());
    r.push("pypdf".to_owned());
    r.push("beautifulsoup4".to_owned());
    r.push("docker".to_owned());
    r.push("redis".to_owned());
    r.push("soundfile".to_owned());
    r.push("rich".to_owned());
    r.push("pydantic".to_owned());
    r.push("requests".to_owned());
    proof {
        assert(text::views(r@) =~= packages());
    }
    r
}

/// A text with hyphens in the place of underscores.
pub open spec fn hyphenated(s: Seq<char>) -> Seq<char> {
    s.map_values(
        |c: char|
            if c == '_' {
                '-'
            } else {
                c
            },
    )
}

fn hyphenate(s: &str) -> (r: String)
    ensures
        r@ == hyphenated(s@),
{
    let cs: Vec<char> = chars_of(s);
    let mut out: String = String::new();
    let mut i: usize = 0;
    proof {
        assert(out@ =~= hyphenated(s@.take(0)));
    }
    while i < cs.len()
        invariant
            cs@ == s@,
            i <= cs@.len(),
            out@ == hyphenated(s@.take(i as int)),
        decreases cs@.len() - i,
    {
        if cs[i] == '_' {
            out.push('-');
        } else {
            out.push(cs[i]);
        }
        i = i + 1;
        proof {
            assert(out@ =~= hyphenated(s@.take(i as int)));
        }
    }
    proof {
        assert(s@.take(s@.len() as int) =~= s@);
    }
    out
}

/// The program imports the package.
pub open spec fn imports(content: Seq<char>, package: Seq<char>) -> bool {
    text::has_text(content, "import "@ + package) || text::has_text(content, "from "@ + package)
}

/// The packages that a program imports, under the names they are installed by.
pub open spec fn requirements(content: Seq<char>) -> Seq<Seq<char>> {
    packages().filter(|p: Seq<char>| imports(content, p)).map_values(
        |p: Seq<char>| hyphenated(p),
    )
}

/// The packages that a program imports, one on a line.
pub fn auto_detect_requirements(content: &str) -> (r: String)
    ensures
        r@ == text::joined(requirements(content@), "\n"@),
{
    let known: Vec<String> = known_packages();
    let ghost all = packages();
    let ghost wanted = |p: Seq<char>| imports(content@, p);
    let ghost named = |p: Seq<char>| hyphenated(p);
    let mut found: Vec<String> = Vec::new();
    let mut i: usize = 0;
    proof {
        reveal(Seq::filter);
        assert(all.take(0) =~= Seq::<Seq<char>>::empty());
        assert(text::views(found@) =~= all.take(0).filter(wanted).map_values(named));
    }
    while i < known.len()
        invariant
            all == packages(),
            text::views(known@) == all,
            wanted == (|p: Seq<char>| imports(content@, p)),
            named == (|p: Seq<char>| hyphenated(p)),
            i <= all.len(),
            text::views(found@) == all.take(i as int).filter(wanted).map_values(named),
        decreases all.len() - i,
    {
        let package: &str = known[i].as_str();
        let ghost before = found@;
        proof {
            reveal(Seq::filter);
            assert(all[i as int] == package@);
            assert(all.take(i + 1).drop_last() =~= all.take(i as int));
            assert(all.take(i + 1).last() == package@);
        }
        let import: String = concat2("import ", package);
        let from: String = concat2("from ", package);
        if contains_text(content, import.as_str()) || contains_text(content, from.as_str()) {
            found.push(hyphenate(package));
            proof {
                let kept = all.take(i as int).filter(wanted);
                assert(text::views(found@) =~= text::views(before).push(hyphenated(package@)));
                assert(kept.push(package@).map_values(named) =~= kept.map_values(named).push(
                    hyphenated(package@),
                ));
            }
        }
        i = i + 1;
    }
    proof {
        assert(all.take(all.len() as int) =~= all);
    }
    join(&found, "\n")
}

/// The line names a package: it is neither blank nor a comment.
pub open spec fn is_requirement(l: Seq<char>) -> bool {
    text::trimmed(l).len() > 0 && !text::has_prefix(text::trimmed(l), "#"@)
}

/// How many packages a list of requirements names.
pub fn count_requirements(content: &str) -> (n: usize)
    ensures
        n == engine::lines(content@).filter(|l: Seq<char>| is_requirement(l)).len(),
{
    let all: Vec<String> = split_lines(content);
    let ghost views = text::views(all@);
    let ghost names = |l: Seq<char>| is_requirement(l);
    let mut n: usize = 0;
    let mut i: usize = 0;
    proof {
        reveal(Seq::filter);
        assert(views.take(0) =~= Seq::<Seq<char>>::empty());
    }
    while i < all.len()
        invariant
            views == text::views(all@),
            names == (|l: Seq<char>| is_requirement(l)),
            i <= all@.len(),
            n <= i,
            n == views.take(i as int).filter(names).len(),
        decreases all@.len() - i,
    {
        let t: String = trim(all[i].as_str());
        proof {
            reveal(Seq::filter);
            assert(views.take(i + 1).drop_last() =~= views.take(i as int));
            assert(views.take(i + 1).last() == all@[i as int]@);
        }
        if !t.as_str().is_empty() && !starts_with(t.as_str(), "#") {
            n = n + 1;
        }
        i = i + 1;
    }
    proof {
        assert(views.take(views.len() as int) =~= views);
    }
    n
}

/// How many lines a text has.
pub fn count_lines(content: &str) -> (n: usize)
    ensures
        n == engine::lines(content@).len(),
{
    let all: Vec<String> = split_lines(content);
    proof {
        assert(text::views(all@).len() == all@.len());
    }
    all.len()
}

/// What is to be done about the list of requirements.
pub enum RequirementsPlan {
    /// There is one, with this many packages.
    Present(usize),
    /// This one is to be written, with this many packages.
    Write(String, usize),
    /// There is none, and nothing was found to put into one.
    Nothing,
}

/// What is to be done about the list of requirements, given the list where there
/// is one, and the program.
pub fn plan_requirements(existing: &Option<String>, program: &str) -> (p: RequirementsPlan)
    ensures
        match *existing {
            Some(list) => p matches RequirementsPlan::Present(n) && n == engine::lines(
                list@,
            ).filter(|l: Seq<char>| is_requirement(l)).len(),
            None => {
                let content = text::joined(requirements(program@), "\n"@);
                if content.len() == 0 {
                    p is Nothing
                } else {
                    p matches RequirementsPlan::Write(t, n) && t@ == content && n == engine::lines(
                        content,
                    ).len()
                }
            },
        },
{
    match existing {
        Some(list) => RequirementsPlan::Present(count_requirements(list.as_str())),
        None => {
            let content: String = auto_detect_requirements(program);
            if content.as_str().is_empty() {
                RequirementsPlan::Nothing
            } else {
                let n: usize = count_lines(content.as_str());
                RequirementsPlan::Write(content, n)
            }
        },
    }
}

// ── The result ──

/// The name of the file that is made.
pub open spec fn executable_name(windows: bool) -> Seq<char> {
    if windows {
        "hexai.exe"@
    } else {
        "hexai"@
    }
}

/// No file of that name is among what was found.
pub open spec fn has_no_executable(entries: Seq<(String, bool)>, windows: bool) -> bool {
    forall|j: int|
        0 <= j < entries.len() && (#[trigger] entries[j]).1 ==> entries[j].0@ != executable_name(
            windows,
        )
}

/// The first file of that name among what was found, each given by its name and
/// whether it is a file.
pub fn find_executable(entries: &Vec<(String, bool)>, windows: bool) -> (r: Option<usize>)
    ensures
        match r {
            Some(i) => i < entries@.len() && entries@[i as int].1 && entries@[i as int].0@
                == executable_name(windows) && forall|j: int|
                0 <= j < i ==> !((#[trigger] entries@[j]).1 && entries@[j].0@ == executable_name(
                    windows,
                )),
            None => forall|j: int|
                0 <= j < entries@.len() ==> !((#[trigger] entries@[j]).1 && entries@[j].0@
                    == executable_name(windows)),
        },
        r is None ==> has_no_executable(entries@, windows),
{
    let name: &str = if windows {
        "hexai.exe"
    } else {
        "hexai"
    };
    let mut i: usize = 0;
    while i < entries.len()
        invariant
            name@ == executable_name(windows),
            i <= entries@.len(),
            forall|j: int|
                0 <= j < i ==> !((#[trigger] entries@[j]).1 && entries@[j].0@ == executable_name(
                    windows,
                )),
        decreases entries@.len() - i,
    {
        if entries[i].1 && same_text(entries[i].0.as_str(), name) {
            return Some(i);
        }
        i = i + 1;
    }
    None
}

// ── What is said ──

/// The number of steps.
pub const STEPS: u8 = 7;

/// The line that tells of a step.
pub fn print_step(step: u8, total: u8, msg: &str) -> (r: String)
    ensures
        r@ == "\n["@ + text::decimal(step as nat) + "/"@ + text::decimal(total as nat) + "] "@
            + msg@,
{
    let s: String = number(step as u64);
    let t: String = number(total as u64);
    let head: String = concat3("\n[", s.as_str(), "/");
    let mid: String = concat3(head.as_str(), t.as_str(), "] ");
    concat2(mid.as_str(), msg)
}

/// What is said where a program cannot be started.
pub fn cannot_run(cmd: &str, cause: &str) -> (r: String)
    ensures
        r@ == "Nie można uruchomić `"@ + cmd@ + "`: "@ + cause@,
{
    let head: String = concat3("Nie można uruchomić `", cmd, "`: ");
    concat2(head.as_str(), cause)
}

/// A number with its sign.
pub open spec fn signed(n: int) -> Seq<char> {
    if n < 0 {
        "-"@ + text::decimal((-n) as nat)
    } else {
        text::decimal(n as nat)
    }
}

/// The code that a program ended with, where it ended with one.
pub open spec fn code_text(code: Option<i32>) -> Seq<char> {
    match code {
        Some(n) => "Some("@ + signed(n as int) + ")"@,
        None => "None"@,
    }
}

/// What is said where a program fails.
pub fn run_failed(cmd: &str, code: Option<i32>) -> (r: String)
    ensures
        r@ == "`"@ + cmd@ + "` zakończyło się błędem (kod: "@ + code_text(code) + ")"@,
{
    let text: String = match code {
        Some(n) => {
            let digits: String = if n < 0 {
                let m: u64 = (-(n as i64)) as u64;
                let d: String = number(m);
                concat2("-", d.as_str())
            } else {
                number(n as u64)
            };
            concat3("Some(", digits.as_str(), ")")
        },
        None => "None".to_owned(),
    };
    let head: String = concat3("`", cmd, "` zakończyło się błędem (kod: ");
    concat3(head.as_str(), text.as_str(), ")")
}

/// What is said where there is nothing to pack.
pub fn missing_source(dir: &str) -> (r: String)
    ensures
        r@ == "Katalog '"@ + dir@ + "' nie istnieje. Utwórz go i umieść w nim main.py."@,
{
    concat3("Katalog '", dir, "' nie istnieje. Utwórz go i umieść w nim main.py.")
}

} // verus!
