//! Laws of packing the Python service.

use crate::builder;
use crate::builder::{
    auto_detect_requirements, cannot_run, count_lines, count_requirements, find_executable,
    missing_source, plan_requirements, print_step, run_failed, BuilderConfig, RequirementsPlan,
};
use crate::engine;
use crate::laws;
use crate::text;
use crate::text::{number, trim};
use vstd::prelude::*;

verus! {

// ── Arguments ──

/// The word is one that the packer knows.
pub open spec fn is_known(w: Seq<char>) -> bool {
    ||| w == "--source"@
    ||| w == "-s"@
    ||| w == "--out"@
    ||| w == "-o"@
    ||| w == "--no-cleanup"@
    ||| w == "--help"@
    ||| w == "-h"@
}

proof fn lemma_words_differ()
    ensures
        "--source"@ != "--out"@,
        "--source"@ != "-o"@,
        "--source"@ != "--no-cleanup"@,
        "--source"@ != "--help"@,
        "--source"@ != "-h"@,
        "-s"@ != "--out"@,
        "-s"@ != "-o"@,
        "-s"@ != "--no-cleanup"@,
        "-s"@ != "--help"@,
        "-s"@ != "-h"@,
        "--out"@ != "--no-cleanup"@,
        "--out"@ != "--help"@,
        "--out"@ != "-h"@,
        "-o"@ != "--no-cleanup"@,
        "-o"@ != "--help"@,
        "-o"@ != "-h"@,
        "--no-cleanup"@ != "--help"@,
        "--no-cleanup"@ != "-h"@,
{
    reveal_strlit("--source");
    reveal_strlit("-s");
    reveal_strlit("--out");
    reveal_strlit("-o");
    reveal_strlit("--no-cleanup");
    reveal_strlit("--help");
    reveal_strlit("-h");
    assert("--source"@.len() == 8 && "-s"@.len() == 2 && "--out"@.len() == 5 && "-o"@.len() == 2
        && "--no-cleanup"@.len() == 12 && "--help"@.len() == 6 && "-h"@.len() == 2);
    assert("-s"@[1] == 's' && "-o"@[1] == 'o' && "-h"@[1] == 'h');
}

/// What is not asked for stays at its default: without a word for the source, the
/// source, and so for the rest. Without a word for help there are settings.
pub proof fn law_defaults(args: &Vec<String>, r: Option<BuilderConfig>)
    requires
        call_ensures(BuilderConfig::from_args, (args,), r),
    ensures
        !text::views(args@).contains("--help"@) && !text::views(args@).contains("-h"@)
            ==> r is Some,
        r matches Some(c) ==> {
            &&& !text::views(args@).contains("--source"@) && !text::views(args@).contains("-s"@)
                ==> c.source_dir@ == "./source-code"@
            &&& !text::views(args@).contains("--out"@) && !text::views(args@).contains("-o"@)
                ==> c.out_dir@ == "."@
            &&& !text::views(args@).contains("--no-cleanup"@) ==> !c.skip_cleanup
        },
{
    lemma_defaults(text::views(args@), 1, builder::default_settings());
    if let Some(c) = r {
        assert(c@ == (c.source_dir@, c.out_dir@, c.skip_cleanup));
    }
}

proof fn lemma_defaults(args: Seq<Seq<char>>, i: int, c: (Seq<char>, Seq<char>, bool))
    requires
        0 <= i,
    ensures
        !args.contains("--help"@) && !args.contains("-h"@) ==> builder::settings_from(args, i, c)
            is Some,
        builder::settings_from(args, i, c) matches Some(d) ==> {
            &&& !args.contains("--source"@) && !args.contains("-s"@) ==> d.0 == c.0
            &&& !args.contains("--out"@) && !args.contains("-o"@) ==> d.1 == c.1
            &&& !args.contains("--no-cleanup"@) ==> d.2 == c.2
            &&& c.2 ==> d.2
        },
    decreases args.len() - i,
{
    if i < args.len() {
        assert(args.contains(args[i]));
        if args[i] == "--source"@ || args[i] == "-s"@ {
            if i + 1 < args.len() {
                lemma_defaults(args, i + 2, (args[i + 1], c.1, c.2));
            }
        } else if args[i] == "--out"@ || args[i] == "-o"@ {
            if i + 1 < args.len() {
                lemma_defaults(args, i + 2, (c.0, args[i + 1], c.2));
            }
        } else if args[i] == "--no-cleanup"@ {
            lemma_defaults(args, i + 1, (c.0, c.1, true));
        } else if args[i] == "--help"@ || args[i] == "-h"@ {
        } else {
            lemma_defaults(args, i + 1, c);
        }
    }
}

/// What a word asks for holds whatever follows it, unless that asks for something
/// else of the same kind; and all that follows it is read as if the word and its
/// value were not there. A word that is not known changes nothing. Help ends the
/// reading.
pub proof fn law_options(
    args: &Vec<String>,
    less: &Vec<String>,
    r: Option<BuilderConfig>,
    s: Option<BuilderConfig>,
    program: String,
    word: String,
    value: String,
    rest: Seq<String>,
)
    requires
        call_ensures(BuilderConfig::from_args, (args,), r),
        call_ensures(BuilderConfig::from_args, (less,), s),
        less@ == seq![program] + rest,
    ensures
        args@ == seq![program, word, value] + rest && (word@ == "--source"@ || word@ == "-s"@) ==> {
            &&& r is Some <==> s is Some
            &&& r matches Some(c) ==> c.out_dir@ == s->0.out_dir@ && c.skip_cleanup
                == s->0.skip_cleanup && (c.source_dir@ == value@ || c.source_dir@
                == s->0.source_dir@)
            &&& r is Some && !text::views(rest).contains("--source"@) && !text::views(
                rest,
            ).contains("-s"@) ==> r->0.source_dir@ == value@
        },
        args@ == seq![program, word, value] + rest && (word@ == "--out"@ || word@ == "-o"@) ==> {
            &&& r is Some <==> s is Some
            &&& r matches Some(c) ==> c.source_dir@ == s->0.source_dir@ && c.skip_cleanup
                == s->0.skip_cleanup && (c.out_dir@ == value@ || c.out_dir@ == s->0.out_dir@)
            &&& r is Some && !text::views(rest).contains("--out"@) && !text::views(rest).contains(
                "-o"@,
            ) ==> r->0.out_dir@ == value@
        },
        args@ == seq![program, word] + rest && word@ == "--no-cleanup"@ ==> {
            &&& r is Some <==> s is Some
            &&& r matches Some(c) ==> c.source_dir@ == s->0.source_dir@ && c.out_dir@
                == s->0.out_dir@ && c.skip_cleanup
        },
        args@ == seq![program, word] + rest && (word@ == "--help"@ || word@ == "-h"@) ==> r is None,
        args@ == seq![program, word] + rest && !is_known(word@) ==> {
            &&& r is Some <==> s is Some
            &&& r matches Some(c) ==> c.source_dir@ == s->0.source_dir@ && c.out_dir@
                == s->0.out_dir@ && c.skip_cleanup == s->0.skip_cleanup
        },
{
    lemma_words_differ();
    let a = text::views(args@);
    let b = text::views(less@);
    let t = text::views(rest);
    let d = builder::default_settings();
    assert(b.skip(1) =~= t);
    if let Some(c) = r {
        assert(c@ == (c.source_dir@, c.out_dir@, c.skip_cleanup));
    }
    if let Some(c) = s {
        assert(c@ == (c.source_dir@, c.out_dir@, c.skip_cleanup));
    }
    if args@ == seq![program, word, value] + rest {
        assert(a.skip(3) =~= t);
        assert(a[1] == word@);
        assert(a[2] == value@);
        assert(a.skip(3) =~= b.skip(1));
        let e = if word@ == "--source"@ || word@ == "-s"@ {
            (value@, d.1, d.2)
        } else {
            (d.0, value@, d.2)
        };
        lemma_same_rest(a, 3, b, 1, e);
        lemma_start_matters(b, 1, e, d);
        lemma_same_rest(b, 1, t, 0, e);
        assert(t.skip(0) =~= t);
        lemma_defaults(t, 0, e);
    }
    if args@ == seq![program, word] + rest {
        assert(a.skip(2) =~= t);
        assert(a[1] == word@);
        assert(a.skip(2) =~= b.skip(1));
        let e = if word@ == "--no-cleanup"@ {
            (d.0, d.1, true)
        } else {
            d
        };
        lemma_same_rest(a, 2, b, 1, e);
        lemma_start_matters(b, 1, e, d);
        lemma_defaults(b, 1, e);
    }
}

proof fn lemma_same_rest(
    a: Seq<Seq<char>>,
    i: int,
    b: Seq<Seq<char>>,
    j: int,
    c: (Seq<char>, Seq<char>, bool),
)
    requires
        0 <= i,
        0 <= j,
        i <= a.len(),
        j <= b.len(),
        a.skip(i) =~= b.skip(j),
    ensures
        builder::settings_from(a, i, c) == builder::settings_from(b, j, c),
    decreases a.len() - i,
{
    assert(a.skip(i).len() == b.skip(j).len());
    if i < a.len() {
        assert(a.skip(i)[0] == b.skip(j)[0]);
        assert(a[i] == b[j]);
        assert(a.skip(i + 1) =~= a.skip(i).skip(1));
        assert(b.skip(j + 1) =~= b.skip(j).skip(1));
        if i + 1 < a.len() {
            assert(a.skip(i)[1] == b.skip(j)[1]);
            assert(a[i + 1] == b[j + 1]);
            assert(a.skip(i + 2) =~= a.skip(i).skip(2));
            assert(b.skip(j + 2) =~= b.skip(j).skip(2));
            lemma_same_rest(a, i + 2, b, j + 2, (a[i + 1], c.1, c.2));
            lemma_same_rest(a, i + 2, b, j + 2, (c.0, a[i + 1], c.2));
        }
        lemma_same_rest(a, i + 1, b, j + 1, (c.0, c.1, true));
        lemma_same_rest(a, i + 1, b, j + 1, c);
    }
}

proof fn lemma_start_matters(
    args: Seq<Seq<char>>,
    i: int,
    c: (Seq<char>, Seq<char>, bool),
    d: (Seq<char>, Seq<char>, bool),
)
    requires
        0 <= i,
    ensures
        ({
            let x = builder::settings_from(args, i, c);
            let y = builder::settings_from(args, i, d);
            &&& x is Some <==> y is Some
            &&& x is Some ==> (x->0).0 == (y->0).0 || ((x->0).0 == c.0 && (y->0).0 == d.0)
            &&& x is Some ==> (x->0).1 == (y->0).1 || ((x->0).1 == c.1 && (y->0).1 == d.1)
            &&& x is Some && c.2 == d.2 ==> (x->0).2 == (y->0).2
        }),
    decreases args.len() - i,
{
    if i < args.len() {
        if args[i] == "--source"@ || args[i] == "-s"@ {
            if i + 1 < args.len() {
                lemma_start_matters(
                    args,
                    i + 2,
                    (args[i + 1], c.1, c.2),
                    (args[i + 1], d.1, d.2),
                );
            }
        } else if args[i] == "--out"@ || args[i] == "-o"@ {
            if i + 1 < args.len() {
                lemma_start_matters(
                    args,
                    i + 2,
                    (c.0, args[i + 1], c.2),
                    (d.0, args[i + 1], d.2),
                );
            }
        } else if args[i] == "--no-cleanup"@ {
            lemma_start_matters(args, i + 1, (c.0, c.1, true), (d.0, d.1, true));
        } else if args[i] == "--help"@ || args[i] == "-h"@ {
        } else {
            lemma_start_matters(args, i + 1, c, d);
        }
    }
}

// ── Requirements ──

/// The package is one that the service may need.
pub open spec fn may_be_needed(p: Seq<char>) -> bool {
    ||| p == "fastapi"@
    ||| p == "uvicorn"@
    ||| p == "transformers"@
    ||| p == "accelerate"@
    ||| p == "bitsandbytes"@
    ||| p == "torch"@
    ||| p == "ollama"@
    ||| p == "llama_index"@
    ||| p == "chromadb"@
    ||| p == "rank_bm25"@
    ||| p == "sentence_transformers"@
    ||| p == "diffusers"@
    ||| p == "duckduckgo_search"@
    ||| p == "pypdf"@
    ||| p == "beautifulsoup4"@
    ||| p == "docker"@
    ||| p == "redis"@
    ||| p == "soundfile"@
    ||| p == "rich"@
    ||| p == "pydantic"@
    ||| p == "requests"@
}

/// Every known package that a program imports, in either way, is required, under
/// its name with hyphens, and nothing else is.
pub proof fn law_requirements(
    program: Seq<char>,
    p: Seq<char>,
    before: Seq<char>,
    behind: Seq<char>,
    i: int,
)
    ensures
        may_be_needed(p) && (program == before + ("import "@ + p) + behind || program == before + (
        "from "@ + p) + behind) ==> exists|j: int|
            0 <= j < builder::requirements(program).len() && dashed(
                p,
                #[trigger] builder::requirements(program)[j],
            ),
        0 <= i < builder::requirements(program).len() ==> exists|q: Seq<char>|
            may_be_needed(q) && #[trigger] dashed(q, builder::requirements(program)[i]) && (
            text::has_text(program, "import "@ + q) || text::has_text(program, "from "@ + q)),
{
    let all = builder::packages();
    let wanted = |q: Seq<char>| builder::imports(program, q);
    let kept = all.filter(wanted);
    let r = builder::requirements(program);
    if may_be_needed(p) && (program == before + ("import "@ + p) + behind || program == before + (
    "from "@ + p) + behind) {
        let k: int = lemma_package_place(p);
        assert(all[k] == p);
        if program == before + ("import "@ + p) + behind {
            lemma_text_inside(before, "import "@ + p, behind);
        } else {
            lemma_text_inside(before, "from "@ + p, behind);
        }
        assert(wanted(p));
        all.lemma_filter_contains(wanted, k);
        let j = choose|j: int| 0 <= j < kept.len() && kept[j] == p;
        assert(r[j] == builder::hyphenated(p));
        assert(dashed(p, r[j]));
    }
    if 0 <= i < r.len() {
        let q = kept[i];
        all.lemma_filter_pred(wanted, i);
        assert(kept.contains(q));
        all.lemma_filter_contains_rev(wanted, q);
        assert(r[i] == builder::hyphenated(q));
        assert(dashed(q, r[i]));
        assert(may_be_needed(q));
    }
}

/// The second text is the first with hyphens in the place of underscores.
pub open spec fn dashed(s: Seq<char>, t: Seq<char>) -> bool {
    &&& t.len() == s.len()
    &&& forall|i: int| 0 <= i < s.len() && s[i] == '_' ==> #[trigger] t[i] == '-'
    &&& forall|i: int| 0 <= i < s.len() && s[i] != '_' ==> #[trigger] t[i] == s[i]
}

proof fn lemma_text_inside(a: Seq<char>, p: Seq<char>, b: Seq<char>)
    ensures
        text::has_text(a + p + b, p),
{
    let s = a + p + b;
    let n = a.len() as int;
    assert(s.subrange(n, n + p.len()) =~= p);
    assert(text::occurs_at(s, p, n));
}

proof fn lemma_package_place(p: Seq<char>) -> (k: int)
    requires
        may_be_needed(p),
    ensures
        0 <= k < builder::packages().len(),
        builder::packages()[k] == p,
{
    let all = builder::packages();
    assert(all[0] == "fastapi"@ && all[1] == "uvicorn"@ && all[2] == "transformers"@ && all[3]
        == "accelerate"@ && all[4] == "bitsandbytes"@ && all[5] == "torch"@ && all[6] == "ollama"@
        && all[7] == "llama_index"@ && all[8] == "chromadb"@ && all[9] == "rank_bm25"@ && all[10]
        == "sentence_transformers"@);
    assert(all[11] == "diffusers"@ && all[12] == "duckduckgo_search"@ && all[13] == "pypdf"@
        && all[14] == "beautifulsoup4"@ && all[15] == "docker"@ && all[16] == "redis"@ && all[17]
        == "soundfile"@ && all[18] == "rich"@ && all[19] == "pydantic"@ && all[20] == "requests"@);
    assert(all.contains(p));
    let k = choose|k: int| 0 <= k < all.len() && all[k] == p;
    k
}

/// A list that is there is left as it is. Otherwise what the program imports is
/// written, one package a line, and nothing where it imports none of them.
pub proof fn law_plan(
    existing: &Option<String>,
    program: &str,
    list: &str,
    p: RequirementsPlan,
    found: String,
    n: usize,
    written: &str,
    m: usize,
)
    requires
        call_ensures(plan_requirements, (existing, program), p),
        call_ensures(auto_detect_requirements, (program,), found),
        call_ensures(count_requirements, (list,), n),
        existing matches Some(e) ==> list@ == e@,
        written@ == found@,
        call_ensures(count_lines, (written,), m),
    ensures
        found@ == text::joined(builder::requirements(program@), "\n"@),
        existing is Some ==> p == RequirementsPlan::Present(n),
        existing is None && found@.len() == 0 ==> p is Nothing,
        existing is None && found@.len() > 0 ==> (p matches RequirementsPlan::Write(t, k) && t@
            == found@ && k == m),
{
}

/// A line counts where it holds something and is no comment, wherever it stands.
pub proof fn law_lines_counted(
    whole: &str,
    rest: &str,
    line: &str,
    t: String,
    n: usize,
    k: usize,
    lines: usize,
    less: usize,
)
    requires
        forall|i: int| 0 <= i < line@.len() ==> #[trigger] line@[i] != '\n' && line@[i] != '\r',
        whole@ == line@.push('\n') + rest@,
        call_ensures(trim, (line,), t),
        call_ensures(count_requirements, (whole,), n),
        call_ensures(count_requirements, (rest,), k),
        call_ensures(count_lines, (whole,), lines),
        call_ensures(count_lines, (rest,), less),
    ensures
        n == k + if t@.len() > 0 && t@[0] != '#' {
            1int
        } else {
            0
        },
        rest@.len() == 0 ==> k == 0 && less == 0,
        lines == less + 1,
{
    laws::engine::law_lines(line@, rest@);
    if line@.len() > 0 {
        assert(line@.last() == line@[line@.len() - 1]);
    }
    let a = seq![line@];
    let b = engine::lines(rest@);
    let names = |l: Seq<char>| builder::is_requirement(l);
    assert(engine::lines(whole@) == a + b);
    lemma_filter_parts(a, b);
    reveal(Seq::filter);
    assert(a.drop_last() =~= Seq::<Seq<char>>::empty());
    assert(a.drop_last().filter(names) =~= Seq::<Seq<char>>::empty());
    reveal_strlit("#");
    if t@.len() > 0 {
        assert(t@.take(1) =~= seq![t@[0]]);
        assert("#"@ =~= seq!['#']);
        if t@[0] != '#' {
            assert(t@.take(1)[0] != "#"@[0]);
        }
    }
    if rest@.len() == 0 {
        laws::engine::law_lines(rest@, rest@);
        assert(b =~= Seq::<Seq<char>>::empty());
    }
}

proof fn lemma_filter_parts(a: Seq<Seq<char>>, b: Seq<Seq<char>>)
    ensures
        (a + b).filter(|l: Seq<char>| builder::is_requirement(l)).len() == a.filter(
            |l: Seq<char>| builder::is_requirement(l),
        ).len() + b.filter(|l: Seq<char>| builder::is_requirement(l)).len(),
    decreases b.len(),
{
    reveal(Seq::filter);
    if b.len() == 0 {
        assert(a + b =~= a);
    } else {
        lemma_filter_parts(a, b.drop_last());
        assert((a + b).drop_last() =~= a + b.drop_last());
        assert((a + b).last() == b.last());
    }
}

// ── The result ──

/// The result is the first file of its name, which a directory of that name is
/// not, and where there is one it is found.
pub proof fn law_executable(entries: &Vec<(String, bool)>, windows: bool, r: Option<usize>, i: int)
    requires
        call_ensures(find_executable, (entries, windows), r),
    ensures
        0 <= i < entries@.len() && entries@[i].1 && entries@[i].0@ == (if windows {
            "hexai.exe"@
        } else {
            "hexai"@
        }) ==> r is Some && r->0 <= i,
        r matches Some(k) ==> k < entries@.len() && entries@[k as int].1 && entries@[k as int].0@
            == (if windows {
            "hexai.exe"@
        } else {
            "hexai"@
        }),
{
    if 0 <= i < entries@.len() && entries@[i].1 && entries@[i].0@ == builder::executable_name(
        windows,
    ) {
        match r {
            Some(k) => {
                if i < k {
                    assert(!((entries@[i]).1 && entries@[i].0@ == builder::executable_name(
                        windows,
                    )));
                }
            },
            None => {
                assert(builder::has_no_executable(entries@, windows));
            },
        }
    }
}

/// What is said on the way names the step, the program and its end.
pub proof fn law_said(
    step: u8,
    total: u8,
    msg: &str,
    cmd: &str,
    cause: &str,
    code: i32,
    a: String,
    b: String,
    c: String,
    d: String,
    e: String,
    s: String,
    t: String,
    n: String,
)
    requires
        code >= 0,
        call_ensures(print_step, (step, total, msg), a),
        call_ensures(cannot_run, (cmd, cause), b),
        call_ensures(run_failed, (cmd, Some(code)), c),
        call_ensures(run_failed, (cmd, None), d),
        call_ensures(missing_source, (msg,), e),
        call_ensures(number, (step as u64,), s),
        call_ensures(number, (total as u64,), t),
        call_ensures(number, (code as u64,), n),
    ensures
        a@ == "\n["@ + s@ + "/"@ + t@ + "] "@ + msg@,
        b@ == "Nie można uruchomić `"@ + cmd@ + "`: "@ + cause@,
        c@ == "`"@ + cmd@ + "` zakończyło się błędem (kod: "@ + ("Some("@ + n@ + ")"@) + ")"@,
        d@ == "`"@ + cmd@ + "` zakończyło się błędem (kod: "@ + "None"@ + ")"@,
        e@ == "Katalog '"@ + msg@ + "' nie istnieje. Utwórz go i umieść w nim main.py."@,
{
}

/// A code below zero is written as the one above it with a minus in front.
pub proof fn law_negative_code(code: i32)
    requires
        i32::MIN < code < 0,
    ensures
        builder::signed(code as int) == "-"@ + builder::signed(-code),
{
}

} // verus!
