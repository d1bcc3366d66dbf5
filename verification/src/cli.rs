//! Command-line argument analysis for the interpreter front end. The front
//! end collects the process arguments and prints or reads files; deciding
//! what the arguments mean happens here.

use vstd::prelude::*;
use vstd::string::StrSliceExecFns;

verus! {

/// What the command line asked for.
#[derive(Debug)]
pub struct CliArgs {
    /// No arguments at all were given beyond the program name.
    pub no_args: bool,
    /// Print the usage message and exit.
    pub f_help: bool,
    /// Parse the file without evaluating it.
    pub f_parse: bool,
    /// Tokenize the file without parsing it.
    pub f_tokenize: bool,
    /// Interpret input from stdin.
    pub f_stdin: bool,
    /// The first argument that is not an option, if any.
    pub path: Option<String>,
}

/// An argument that is an option: it starts with a dash.
pub open spec fn is_flag(a: Seq<char>) -> bool {
    a.len() >= 1 && a[0] == '-'
}

/// Whether some argument equals the given option.
pub open spec fn has_arg(s: Seq<Seq<char>>, f: Seq<char>) -> bool {
    exists|i: int| 0 <= i < s.len() && s[i] == f
}

/// The first argument that is not an option.
pub open spec fn first_path(s: Seq<Seq<char>>) -> Option<Seq<char>>
    decreases s.len(),
{
    if s.len() == 0 {
        None
    } else if !is_flag(s[0]) {
        Some(s[0])
    } else {
        first_path(s.drop_first())
    }
}

/// The arguments as character sequences.
pub open spec fn views_of(args: Seq<String>) -> Seq<Seq<char>> {
    args.map_values(|a: String| a@)
}

proof fn lemma_has_arg_push(s: Seq<Seq<char>>, e: Seq<char>, f: Seq<char>)
    ensures
        has_arg(s.push(e), f) == (has_arg(s, f) || e == f),
{
    if has_arg(s, f) {
        let i = choose|i: int| 0 <= i < s.len() && s[i] == f;
        assert(s.push(e)[i] == f);
    }
    if e == f {
        assert(s.push(e)[s.len() as int] == f);
    }
    if has_arg(s.push(e), f) && e != f {
        let i = choose|i: int| 0 <= i < s.push(e).len() && s.push(e)[i] == f;
        assert(i < s.len() && s[i] == f);
    }
}

/// Whether the argument is an option.
fn arg_is_flag(a: &String) -> (r: bool)
    ensures
        r == is_flag(a@),
{
    let n = a.as_str().unicode_len();
    n >= 1 && a.as_str().get_char(0) == '-'
}

/// Read the command line: `no_args` when only the program name was given;
/// each option set when any argument spells it, long or short; the path
/// the first argument that is not an option. Arguments beyond those are
/// ignored.
pub fn parse_args(args: Vec<String>) -> (r: CliArgs)
    requires
        args@.len() >= 1,
    ensures
        r.no_args == (args@.len() == 1),
        r.f_help == (has_arg(views_of(args@).skip(1), "--help"@) || has_arg(
            views_of(args@).skip(1),
            "-h"@,
        )),
        r.f_parse == (has_arg(views_of(args@).skip(1), "--parse"@) || has_arg(
            views_of(args@).skip(1),
            "-p"@,
        )),
        r.f_tokenize == (has_arg(views_of(args@).skip(1), "--tokenize"@) || has_arg(
            views_of(args@).skip(1),
            "-l"@,
        )),
        r.f_stdin == (has_arg(views_of(args@).skip(1), "--stdin"@) || has_arg(
            views_of(args@).skip(1),
            "-i"@,
        )),
        match r.path {
            Some(p) => first_path(views_of(args@).skip(1)) == Some(p@),
            None => first_path(views_of(args@).skip(1)) is None,
        },
{
    let ghost rest = views_of(args@).skip(1);
    let no_args = args.len() == 1;
    let s_help: String = "--help".to_owned();
    let s_h: String = "-h".to_owned();
    let s_parse: String = "--parse".to_owned();
    let s_p: String = "-p".to_owned();
    let s_tokenize: String = "--tokenize".to_owned();
    let s_l: String = "-l".to_owned();
    let s_stdin: String = "--stdin".to_owned();
    let s_i: String = "-i".to_owned();
    let mut f_help = false;
    let mut f_parse = false;
    let mut f_tokenize = false;
    let mut f_stdin = false;
    let mut path: Option<String> = None;
    let n = args.len();
    let mut i: usize = 1;
    proof {
        assert(rest.skip(0) =~= rest);
    }
    while i < n
        invariant
            1 <= i <= n,
            n == args@.len(),
            rest == views_of(args@).skip(1),
            rest.len() == n - 1,
            forall|j: int| 0 <= j < rest.len() ==> rest[j] == args@[j + 1]@,
            s_help@ == "--help"@,
            s_h@ == "-h"@,
            s_parse@ == "--parse"@,
            s_p@ == "-p"@,
            s_tokenize@ == "--tokenize"@,
            s_l@ == "-l"@,
            s_stdin@ == "--stdin"@,
            s_i@ == "-i"@,
            f_help == (has_arg(rest.take(i - 1), "--help"@) || has_arg(rest.take(i - 1), "-h"@)),
            f_parse == (has_arg(rest.take(i - 1), "--parse"@) || has_arg(rest.take(i - 1), "-p"@)),
            f_tokenize == (has_arg(rest.take(i - 1), "--tokenize"@) || has_arg(
                rest.take(i - 1),
                "-l"@,
            )),
            f_stdin == (has_arg(rest.take(i - 1), "--stdin"@) || has_arg(rest.take(i - 1), "-i"@)),
            match path {
                Some(p) => first_path(rest) == Some(p@),
                None => first_path(rest) == first_path(rest.skip(i - 1)),
            },
        decreases n - i,
    {
        let ghost j = i - 1;
        let arg = &args[i];
        proof {
            assert(rest[j] == args@[i as int]@);
            assert(rest.take(j + 1) =~= rest.take(j).push(rest[j]));
            lemma_has_arg_push(rest.take(j), rest[j], "--help"@);
            lemma_has_arg_push(rest.take(j), rest[j], "-h"@);
            lemma_has_arg_push(rest.take(j), rest[j], "--parse"@);
            lemma_has_arg_push(rest.take(j), rest[j], "-p"@);
            lemma_has_arg_push(rest.take(j), rest[j], "--tokenize"@);
            lemma_has_arg_push(rest.take(j), rest[j], "-l"@);
            lemma_has_arg_push(rest.take(j), rest[j], "--stdin"@);
            lemma_has_arg_push(rest.take(j), rest[j], "-i"@);
        }
        if arg_is_flag(arg) {
            f_help = f_help || arg.eq(&s_help) || arg.eq(&s_h);
            f_parse = f_parse || arg.eq(&s_parse) || arg.eq(&s_p);
            f_tokenize = f_tokenize || arg.eq(&s_tokenize) || arg.eq(&s_l);
            f_stdin = f_stdin || arg.eq(&s_stdin) || arg.eq(&s_i);
            proof {
                if path is None {
                    assert(rest.skip(j)[0] == rest[j]);
                    assert(rest.skip(j).drop_first() =~= rest.skip(j + 1));
                    assert(first_path(rest.skip(j)) == first_path(rest.skip(j + 1)));
                }
            }
        } else {
            proof {
                reveal_strlit("--help");
                reveal_strlit("-h");
                reveal_strlit("--parse");
                reveal_strlit("-p");
                reveal_strlit("--tokenize");
                reveal_strlit("-l");
                reveal_strlit("--stdin");
                reveal_strlit("-i");
                assert(is_flag("--help"@) && is_flag("-h"@) && is_flag("--parse"@) && is_flag(
                    "-p"@,
                ) && is_flag("--tokenize"@) && is_flag("-l"@) && is_flag("--stdin"@) && is_flag(
                    "-i"@,
                ));
            }
            if path.is_none() {
                path = Some(arg.clone());
                proof {
                    assert(rest.skip(j)[0] == rest[j]);
                    assert(first_path(rest.skip(j)) == Some(rest[j]));
                }
            }
        }
        i += 1;
    }
    proof {
        assert(rest.take(n - 1) =~= rest);
        if path is None {
            assert(rest.skip(n - 1) =~= Seq::<Seq<char>>::empty());
        }
    }
    CliArgs { no_args, f_help, f_parse, f_tokenize, f_stdin, path }
}

} // verus!
