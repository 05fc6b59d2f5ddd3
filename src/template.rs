use vstd::prelude::*;

use crate::config::Config;
use crate::text::{chars_of, string_of, texts};

verus! {

/// Whether a character is in the Unicode word class `\w`.
pub uninterp spec fn word_char(c: char) -> bool;

/// Relies on `regex_syntax::is_word_character`: whether `c` is a Unicode word
/// character, the class `\w` of regular expressions. On ASCII that class is
/// `[0-9A-Za-z_]`.
#[verifier::external_body]
fn is_word(c: char) -> (r: bool)
    ensures
        r == word_char(c),
        (c as u32) < 128 ==> (r <==> (c == '_' || ('0' <= c && c <= '9') || ('a' <= c && c
            <= 'z') || ('A' <= c && c <= 'Z'))),
{
    regex_syntax::is_word_character(c)
}

/// The characters a placeholder name is made of: on ASCII `[0-9A-Za-z_]`,
/// elsewhere the Unicode word class.
pub open spec fn name_char(c: char) -> bool {
    if (c as u32) < 128 {
        c == '_' || ('0' <= c && c <= '9') || ('a' <= c && c <= 'z') || ('A' <= c && c <= 'Z')
    } else {
        word_char(c)
    }
}

fn is_name_char(c: char) -> (r: bool)
    ensures
        r == name_char(c),
{
    is_word(c)
}

/// The values that placeholders in launch arguments stand for.
#[derive(Debug, Clone)]
pub struct Placeholders {
    pub game_directory: String,
    pub assets_root: String,
    pub assets_index_name: String,
    pub version_name: String,
    pub classpath: String,
    pub natives_directory: String,
    /// Looked up for every other name.
    pub config: Config,
}

/// The values of a set of placeholders, as text.
pub struct PlaceholderValues {
    pub game_directory: Seq<char>,
    pub assets_root: Seq<char>,
    pub assets_index_name: Seq<char>,
    pub version_name: Seq<char>,
    pub classpath: Seq<char>,
    pub natives_directory: Seq<char>,
    pub config: Map<Seq<char>, Seq<char>>,
}

impl View for Placeholders {
    type V = PlaceholderValues;

    open spec fn view(&self) -> PlaceholderValues {
        PlaceholderValues {
            game_directory: self.game_directory@,
            assets_root: self.assets_root@,
            assets_index_name: self.assets_index_name@,
            version_name: self.version_name@,
            classpath: self.classpath@,
            natives_directory: self.natives_directory@,
            config: self.config@,
        }
    }
}

/// What `${name}` is replaced with: a well-known value, else the config's
/// entry, else nothing.
pub open spec fn resolve_placeholder(ctx: PlaceholderValues, name: Seq<char>) -> Seq<char> {
    if name == "game_directory"@ {
        ctx.game_directory
    } else if name == "assets_root"@ || name == "game_assets"@ {
        ctx.assets_root
    } else if name == "assets_index_name"@ {
        ctx.assets_index_name
    } else if name == "version_name"@ {
        ctx.version_name
    } else if name == "classpath"@ {
        ctx.classpath
    } else if name == "natives_directory"@ {
        ctx.natives_directory
    } else if ctx.config.contains_key(name) {
        ctx.config[name]
    } else {
        seq![]
    }
}

/// The names whose values come from the pipeline rather than the config.
pub open spec fn well_known_name(name: Seq<char>) -> bool {
    name == "game_directory"@ || name == "assets_root"@ || name == "game_assets"@ || name
        == "assets_index_name"@ || name == "version_name"@ || name == "classpath"@ || name
        == "natives_directory"@
}

/// `${classpath}` stands for the computed classpath exactly, whatever the
/// config holds; a name that is neither well known nor in the config stands
/// for the empty text, not an error.
pub proof fn lemma_placeholder_values(ctx: PlaceholderValues, name: Seq<char>)
    ensures
        resolve_placeholder(ctx, "classpath"@) == ctx.classpath,
        !well_known_name(name) && !ctx.config.contains_key(name) ==> resolve_placeholder(ctx, name)
            == Seq::<char>::empty(),
        !well_known_name(name) && ctx.config.contains_key(name) ==> resolve_placeholder(ctx, name)
            == ctx.config[name],
{
    reveal_strlit("classpath");
    reveal_strlit("game_directory");
    reveal_strlit("assets_root");
    reveal_strlit("game_assets");
    reveal_strlit("assets_index_name");
    reveal_strlit("version_name");
    assert("classpath"@.len() == 9);
    assert("game_directory"@.len() == 14);
    assert("assets_root"@.len() == 11);
    assert("game_assets"@.len() == 11);
    assert("assets_index_name"@.len() == 17);
    assert("version_name"@.len() == 12);
}

/// The first index at or after `j` that does not hold a name character.
pub open spec fn word_run_end(s: Seq<char>, j: int) -> int
    decreases s.len() - j,
{
    if j < 0 || j >= s.len() || !name_char(s[j]) {
        j
    } else {
        word_run_end(s, j + 1)
    }
}

/// Where a placeholder `${name}` that starts at `i` ends: the index of its `}`.
/// The name is one or more name characters.
pub open spec fn placeholder_end(s: Seq<char>, i: int) -> Option<int> {
    if 0 <= i && i + 1 < s.len() && s[i] == '$' && s[i + 1] == '{' {
        let j = word_run_end(s, i + 2);
        if i + 2 < j && j < s.len() && s[j] == '}' {
            Some(j)
        } else {
            None
        }
    } else {
        None
    }
}

/// The text from index `i` on, with each placeholder replaced, scanning left to right.
pub open spec fn substitute_from(s: Seq<char>, i: int, ctx: PlaceholderValues) -> Seq<char>
    decreases s.len() - i,
{
    if i < 0 || i >= s.len() {
        seq![]
    } else {
        match placeholder_end(s, i) {
            Some(k) => resolve_placeholder(ctx, s.subrange(i + 2, k)) + substitute_from(
                s,
                k + 1,
                ctx,
            ),
            None => seq![s[i]] + substitute_from(s, i + 1, ctx),
        }
    }
}

/// A token with each `${name}` replaced.
pub open spec fn substituted(token: Seq<char>, ctx: PlaceholderValues) -> Seq<char> {
    substitute_from(token, 0, ctx)
}

proof fn lemma_word_run_end(s: Seq<char>, j: int)
    requires
        0 <= j <= s.len(),
    ensures
        j <= word_run_end(s, j) <= s.len(),
    decreases s.len() - j,
{
    if j < s.len() && name_char(s[j]) {
        lemma_word_run_end(s, j + 1);
    }
}

proof fn lemma_name_run(s: Seq<char>, j: int, k: int)
    requires
        0 <= j <= k < s.len(),
        forall|m: int| j <= m < k ==> name_char(#[trigger] s[m]),
        !name_char(s[k]),
    ensures
        word_run_end(s, j) == k,
    decreases k - j,
{
    if j < k {
        lemma_name_run(s, j + 1, k);
    }
}

/// Text without `$` is kept as it is.
proof fn lemma_plain_run(s: Seq<char>, i: int, j: int, ctx: PlaceholderValues)
    requires
        0 <= i <= j <= s.len(),
        forall|m: int| i <= m < j ==> #[trigger] s[m] != '$',
    ensures
        substitute_from(s, i, ctx) == s.subrange(i, j) + substitute_from(s, j, ctx),
    decreases j - i,
{
    if i < j {
        lemma_plain_run(s, i + 1, j, ctx);
        assert(s.subrange(i, j) == seq![s[i]] + s.subrange(i + 1, j));
    } else {
        assert(s.subrange(i, j) == Seq::<char>::empty());
    }
}

/// Text without `$` followed by one placeholder `${name}`: the text is kept
/// and the placeholder becomes the value of `name`.
pub proof fn lemma_trailing_placeholder(prefix: Seq<char>, name: Seq<char>, ctx: PlaceholderValues)
    requires
        forall|m: int| 0 <= m < prefix.len() ==> #[trigger] prefix[m] != '$',
        name.len() > 0,
        forall|m: int| 0 <= m < name.len() ==> name_char(#[trigger] name[m]),
    ensures
        substituted(prefix + seq!['$', '{'] + name + seq!['}'], ctx) == prefix + resolve_placeholder(
            ctx,
            name,
        ),
{
    let s = prefix + seq!['$', '{'] + name + seq!['}'];
    let i: int = prefix.len() as int;
    let k: int = i + name.len() + 2;
    assert forall|m: int| 0 <= m < i implies #[trigger] s[m] != '$' by {
        assert(s[m] == prefix[m]);
    }
    lemma_plain_run(s, 0, i, ctx);
    assert(s.subrange(0, i) == prefix);
    assert forall|m: int| i + 2 <= m < k implies name_char(#[trigger] s[m]) by {
        assert(s[m] == name[m - i - 2]);
    }
    assert(s[k] == '}');
    assert(('}' as u32) == 125);
    lemma_name_run(s, i + 2, k);
    assert(s.subrange(i + 2, k) == name);
    assert(substitute_from(s, k + 1, ctx) == Seq::<char>::empty());
}

/// Text without `$` is kept as it is.
pub proof fn lemma_plain_token(t: Seq<char>, ctx: PlaceholderValues)
    requires
        forall|m: int| 0 <= m < t.len() ==> #[trigger] t[m] != '$',
    ensures
        substituted(t, ctx) == t,
{
    lemma_plain_run(t, 0, t.len() as int, ctx);
    assert(t.subrange(0, t.len() as int) == t);
}

/// `${classpath}` becomes the computed classpath exactly.
pub proof fn lemma_classpath_token(ctx: PlaceholderValues)
    ensures
        substituted("${classpath}"@, ctx) == ctx.classpath,
{
    reveal_strlit("${classpath}");
    reveal_strlit("classpath");
    let name = "classpath"@;
    let empty = Seq::<char>::empty();
    assert("${classpath}"@ == empty + seq!['$', '{'] + name + seq!['}']);
    assert forall|m: int| 0 <= m < name.len() implies name_char(#[trigger] name[m]) by {}
    lemma_trailing_placeholder(empty, name, ctx);
    assert(empty + name == name);
    lemma_placeholder_values(ctx, name);
}

/// `${totally_unknown}` becomes the empty text where the config does not set
/// `totally_unknown`: an unknown name is no error.
pub proof fn lemma_unknown_token(ctx: PlaceholderValues)
    requires
        !ctx.config.contains_key("totally_unknown"@),
    ensures
        substituted("${totally_unknown}"@, ctx) == Seq::<char>::empty(),
{
    reveal_strlit("${totally_unknown}");
    reveal_strlit("totally_unknown");
    let name = "totally_unknown"@;
    let empty = Seq::<char>::empty();
    assert("${totally_unknown}"@ == empty + seq!['$', '{'] + name + seq!['}']);
    assert forall|m: int| 0 <= m < name.len() implies name_char(#[trigger] name[m]) by {}
    lemma_trailing_placeholder(empty, name, ctx);
    reveal_strlit("game_directory");
    reveal_strlit("assets_root");
    reveal_strlit("game_assets");
    reveal_strlit("assets_index_name");
    reveal_strlit("version_name");
    reveal_strlit("classpath");
    reveal_strlit("natives_directory");
    assert(name.len() == 15);
    assert("natives_directory"@.len() == 17);
    assert("game_directory"@.len() == 14);
    assert("assets_root"@.len() == 11);
    assert("game_assets"@.len() == 11);
    assert("version_name"@.len() == 12);
    assert("classpath"@.len() == 9);
    assert("assets_index_name"@.len() == 17);
    lemma_placeholder_values(ctx, name);
}

fn find_placeholder_end(cs: &Vec<char>, i: usize) -> (r: Option<usize>)
    requires
        i < cs@.len(),
    ensures
        r matches Some(k) ==> placeholder_end(cs@, i as int) == Some(k as int),
        r is None ==> placeholder_end(cs@, i as int) is None,
{
    let n = cs.len();
    if !(i + 1 < n && cs[i] == '$' && cs[i + 1] == '{') {
        return None;
    }
    let mut j: usize = i + 2;
    while j < n && is_name_char(cs[j])
        invariant
            i + 2 <= j <= n,
            n == cs@.len(),
            word_run_end(cs@, j as int) == word_run_end(cs@, i as int + 2),
        decreases n - j,
    {
        j = j + 1;
    }
    if i + 2 < j && j < n && cs[j] == '}' {
        Some(j)
    } else {
        None
    }
}

fn literal_is(name: &String, lit: &str) -> (r: bool)
    ensures
        r == (name@ == lit@),
{
    *name == lit.to_owned()
}

/// The value for placeholder `name`.
pub fn resolve(name: &String, ctx: &Placeholders) -> (r: String)
    ensures
        r@ == resolve_placeholder(ctx@, name@),
{
    if literal_is(name, "game_directory") {
        ctx.game_directory.as_str().to_owned()
    } else if literal_is(name, "assets_root") || literal_is(name, "game_assets") {
        ctx.assets_root.as_str().to_owned()
    } else if literal_is(name, "assets_index_name") {
        ctx.assets_index_name.as_str().to_owned()
    } else if literal_is(name, "version_name") {
        ctx.version_name.as_str().to_owned()
    } else if literal_is(name, "classpath") {
        ctx.classpath.as_str().to_owned()
    } else if literal_is(name, "natives_directory") {
        ctx.natives_directory.as_str().to_owned()
    } else {
        match ctx.config.get(name.as_str()) {
            Some(v) => v.to_owned(),
            None => String::new(),
        }
    }
}

/// Replaces each `${name}` of `token`, scanning left to right; text that is
/// not a placeholder is kept as it is.
pub fn substitute(token: &str, ctx: &Placeholders) -> (r: String)
    ensures
        r@ == substituted(token@, ctx@),
{
    let cs = chars_of(token);
    let n = cs.len();
    let mut out: Vec<char> = Vec::new();
    let mut i: usize = 0;
    while i < n
        invariant
            n == cs@.len(),
            cs@ == token@,
            i <= n,
            out@ + substitute_from(cs@, i as int, ctx@) == substituted(token@, ctx@),
        decreases n - i,
    {
        let ghost before = out@;
        match find_placeholder_end(&cs, i) {
            Some(k) => {
                let mut name_chars: Vec<char> = Vec::new();
                let mut p: usize = i + 2;
                while p < k
                    invariant
                        i + 2 <= p <= k,
                        k < n,
                        n == cs@.len(),
                        name_chars@ == cs@.subrange(i as int + 2, p as int),
                    decreases k - p,
                {
                    name_chars.push(cs[p]);
                    p = p + 1;
                }
                let name = string_of(&name_chars);
                let value = chars_of(resolve(&name, ctx).as_str());
                let mut q: usize = 0;
                while q < value.len()
                    invariant
                        q <= value@.len(),
                        out@ == before + value@.take(q as int),
                    decreases value.len() - q,
                {
                    out.push(value[q]);
                    q = q + 1;
                }
                proof {
                    assert(value@.take(value@.len() as int) == value@);
                    assert(before + (value@ + substitute_from(cs@, k as int + 1, ctx@)) == (before
                        + value@) + substitute_from(cs@, k as int + 1, ctx@));
                }
                i = k + 1;
            },
            None => {
                out.push(cs[i]);
                proof {
                    assert(before + (seq![cs@[i as int]] + substitute_from(cs@, i + 1, ctx@))
                        == out@ + substitute_from(cs@, i + 1, ctx@));
                }
                i = i + 1;
            },
        }
    }
    proof {
        assert(out@ + seq![] == out@);
    }
    string_of(&out)
}

/// Each token with its placeholders replaced.
pub fn substitute_all(tokens: &Vec<String>, ctx: &Placeholders) -> (r: Vec<String>)
    ensures
        texts(r@) == texts(tokens@).map_values(|t: Seq<char>| substituted(t, ctx@)),
{
    let mut out: Vec<String> = Vec::new();
    let mut i: usize = 0;
    while i < tokens.len()
        invariant
            i <= tokens@.len(),
            out@.len() == i,
            forall|j: int| 0 <= j < i ==> #[trigger] out@[j]@ == substituted(tokens@[j]@, ctx@),
        decreases tokens.len() - i,
    {
        let s = substitute(tokens[i].as_str(), ctx);
        out.push(s);
        i = i + 1;
    }
    proof {
        assert(texts(out@) =~= texts(tokens@).map_values(|t: Seq<char>| substituted(t, ctx@)));
    }
    out
}

} // verus!
