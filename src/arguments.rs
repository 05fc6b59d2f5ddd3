use vstd::prelude::*;

use crate::platform::Platform;
use crate::rule::{all_rules_allowed, rules_allowed, Rule};
use crate::text::{reversed, split_char, split_on, texts};

verus! {

/// The value of a conditional argument: one token or several.
#[derive(Debug, Clone)]
pub enum ArgValue {
    Value(String),
    Values(Vec<String>),
}

/// One entry of a structured argument list.
#[derive(Debug, Clone)]
pub enum Argument {
    /// A literal token.
    Arg(String),
    /// Tokens that apply only where every rule is allowed.
    Rule { rules: Vec<Rule>, value: ArgValue },
}

/// The launch arguments of a client descriptor, in one of its two shapes.
#[derive(Debug, Clone)]
pub enum Arguments {
    /// Separate lists for the runtime and for the game.
    Args { game: Vec<Argument>, jvm: Vec<Argument> },
    /// The older shape: the game's arguments as one space-joined string.
    MinecraftArgs(String),
}

/// The tokens one argument contributes on the host.
pub open spec fn argument_tokens(arg: Argument, platform: Platform) -> Seq<Seq<char>> {
    match arg {
        Argument::Arg(s) => seq![s@],
        Argument::Rule { rules, value } => {
            if all_rules_allowed(rules@, platform) {
                match value {
                    ArgValue::Value(v) => seq![v@],
                    ArgValue::Values(vs) => texts(vs@),
                }
            } else {
                seq![]
            }
        },
    }
}

/// The tokens of an argument list: each argument's, in declared order.
pub open spec fn list_tokens(args: Seq<Argument>, platform: Platform) -> Seq<Seq<char>>
    decreases args.len(),
{
    if args.len() == 0 {
        seq![]
    } else {
        list_tokens(args.drop_last(), platform) + argument_tokens(args.last(), platform)
    }
}

/// The pieces of `s` between single spaces, empty pieces included.
pub open spec fn split_on_space(s: Seq<char>) -> Seq<Seq<char>> {
    split_on(s, ' ')
}

/// The runtime tokens given to a descriptor of the older shape.
pub open spec fn legacy_jvm_tokens() -> Seq<Seq<char>> {
    seq![
        "-Djava.library.path=${natives_directory}"@,
        "-cp"@,
        "${classpath}"@,
    ]
}

/// The (runtime, game) tokens of a descriptor's arguments on the host.
pub open spec fn arguments_tokens(args: Arguments, platform: Platform) -> (
    Seq<Seq<char>>,
    Seq<Seq<char>>,
) {
    match args {
        Arguments::Args { game, jvm } => (
            list_tokens(jvm@, platform),
            list_tokens(game@, platform),
        ),
        Arguments::MinecraftArgs(s) => (legacy_jvm_tokens(), split_on_space(s@)),
    }
}

/// Appends the texts of `extra` to `out`.
fn append_strings(out: &mut Vec<String>, extra: Vec<String>)
    ensures
        texts(final(out)@) == texts(old(out)@) + texts(extra@),
{
    let ghost start = out@;
    let n = extra.len();
    let mut rest = reversed(extra);
    while rest.len() > 0
        invariant
            rest@.len() <= n,
            n == extra@.len(),
            out@ == start + extra@.take(n - rest@.len()),
            forall|j: int| 0 <= j < rest@.len() ==> rest@[j] == extra@[n - 1 - j],
        decreases rest.len(),
    {
        let s = rest.pop().unwrap();
        proof {
            assert(extra@.take(n - rest@.len()) == extra@.take(n - rest@.len() - 1).push(s));
        }
        out.push(s);
    }
    proof {
        assert(extra@.take(n as int) == extra@);
        assert(texts(start + extra@) =~= texts(start) + texts(extra@));
    }
}

impl Argument {
    /// The tokens this argument contributes on the host: none where one of its
    /// rules is not allowed.
    pub fn into_raw(self, platform: &Platform) -> (r: Vec<String>)
        ensures
            texts(r@) == argument_tokens(self, *platform),
    {
        match self {
            Argument::Arg(arg) => {
                let mut v = Vec::new();
                v.push(arg);
                proof {
                    assert(texts(v@) =~= seq![arg@]);
                }
                v
            },
            Argument::Rule { rules, value } => {
                if rules_allowed(&rules, platform) {
                    match value {
                        ArgValue::Value(value) => {
                            let mut v = Vec::new();
                            v.push(value);
                            proof {
                                assert(texts(v@) =~= seq![value@]);
                            }
                            v
                        },
                        ArgValue::Values(values) => values,
                    }
                } else {
                    let v: Vec<String> = Vec::new();
                    proof {
                        assert(texts(v@) =~= seq![]);
                    }
                    v
                }
            },
        }
    }
}

/// The tokens of an argument list on the host, in declared order.
pub fn list_into_raw(args: Vec<Argument>, platform: &Platform) -> (r: Vec<String>)
    ensures
        texts(r@) == list_tokens(args@, *platform),
{
    let mut out: Vec<String> = Vec::new();
    let n = args.len();
    let mut rest = reversed(args);
    let mut i: usize = 0;
    while rest.len() > 0
        invariant
            n == args@.len(),
            i + rest@.len() == n,
            forall|j: int| 0 <= j < rest@.len() ==> rest@[j] == args@[n - 1 - j],
            texts(out@) == list_tokens(args@.take(i as int), *platform),
        decreases rest.len(),
    {
        let arg = rest.pop().unwrap();
        proof {
            assert(args@.take(i as int + 1).drop_last() == args@.take(i as int));
        }
        let tokens = arg.into_raw(platform);
        append_strings(&mut out, tokens);
        i = i + 1;
    }
    proof {
        assert(args@.take(n as int) == args@);
    }
    out
}

impl Arguments {
    /// The (runtime, game) tokens on the host. Structured lists keep the
    /// tokens of allowed arguments in declared order; the older shape splits
    /// its string at each space and gets a fixed runtime part that points the
    /// runtime at the natives directory and the classpath.
    pub fn into_raw(self, platform: &Platform) -> (r: (Vec<String>, Vec<String>))
        ensures
            (texts(r.0@), texts(r.1@)) == arguments_tokens(self, *platform),
    {
        match self {
            Arguments::Args { game, jvm } => {
                let jvm = list_into_raw(jvm, platform);
                let game = list_into_raw(game, platform);
                (jvm, game)
            },
            Arguments::MinecraftArgs(args) => {
                let game = split_char(args.as_str(), ' ');
                let mut jvm: Vec<String> = Vec::new();
                jvm.push("-Djava.library.path=${natives_directory}".to_owned());
                jvm.push("-cp".to_owned());
                jvm.push("${classpath}".to_owned());
                proof {
                    assert(texts(jvm@) =~= legacy_jvm_tokens());
                }
                (jvm, game)
            },
        }
    }
}

/// A descriptor of the older shape always yields the fixed runtime tokens, so
/// never an empty runtime part, and at least one game token.
pub proof fn lemma_legacy_tokens(args: String, platform: Platform)
    ensures
        arguments_tokens(Arguments::MinecraftArgs(args), platform).0 == legacy_jvm_tokens(),
        arguments_tokens(Arguments::MinecraftArgs(args), platform).0.len() == 3,
        arguments_tokens(Arguments::MinecraftArgs(args), platform).1.len() >= 1,
{
}

} // verus!
