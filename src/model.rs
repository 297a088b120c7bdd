//! Model metadata as reported by a backend's catalog, and its display forms.

use vstd::prelude::*;
use vstd::string::*;
use crate::text::{chars_of, string_of, copy_chars};
use crate::message::str_eq;

verus! {

/// A model offered by a backend.
#[derive(Debug, Clone, PartialEq, Eq)]
pub struct Model {
    pub id: String,
    pub parameters: Option<ModelParams>,
    pub quantization: Option<ModelQuant>,
    pub thinking: Option<ThinkingModes>,
}

/// The thinking modes a model supports, and its thinking budget if bounded.
#[derive(Debug, Clone, PartialEq, Eq)]
pub struct ThinkingModes {
    pub modes: Vec<String>,
    pub budget: Option<ThinkingBudget>,
}

/// The range of thinking tokens a model accepts.
#[derive(Debug, Clone, Copy, PartialEq, Eq)]
pub struct ThinkingBudget {
    pub min: usize,
    pub max: usize,
}

/// A parameter count label such as "7B".
#[derive(Debug, Clone, PartialEq, Eq)]
pub struct ModelParams(pub String);

/// A quantization label such as "Q4:KM".
#[derive(Debug, Clone, PartialEq, Eq)]
pub struct ModelQuant(pub String);

/// What `str::to_uppercase` gives for `s`.
pub uninterp spec fn upper_of(s: Seq<char>) -> Seq<char>;

/// Relies on `str::to_uppercase`: the upper-case form of `s`, which depends on
/// the characters of `s` alone.
#[verifier::external_body]
fn to_upper(s: &str) -> (r: String)
    ensures
        r@ == upper_of(s@),
{
    s.to_uppercase()
}

/// `'_'` or `'-'`.
pub open spec fn is_separator(c: char) -> bool {
    c == '_' || c == '-'
}

/// The quantization label of an upper-cased text: the first separator becomes
/// `':'` and every later separator is dropped.
pub open spec fn quant_spec(s: Seq<char>, seen_sep: bool) -> Seq<char>
    decreases s.len(),
{
    if s.len() == 0 {
        Seq::empty()
    } else if is_separator(s[0]) {
        if seen_sep {
            quant_spec(s.drop_first(), true)
        } else {
            seq![':'] + quant_spec(s.drop_first(), true)
        }
    } else {
        seq![s[0]] + quant_spec(s.drop_first(), seen_sep)
    }
}

impl ModelParams {
    /// The label, upper-cased.
    pub fn new(s: &str) -> (r: ModelParams)
        ensures
            r.0@ == upper_of(s@),
    {
        ModelParams(to_upper(s))
    }

    pub fn as_str(&self) -> (r: &str)
        ensures
            r@ == self.0@,
    {
        self.0.as_str()
    }
}

impl ModelQuant {
    /// The label of `s`, upper-cased, with its separators normalised.
    pub fn new(s: &str) -> (r: ModelQuant)
        ensures
            r.0@ == quant_spec(upper_of(s@), false),
    {
        let upper = to_upper(s);
        ModelQuant::from_uppercased(upper.as_str())
    }

    /// The label of an already upper-cased text: the first `'_'` or `'-'`
    /// becomes `':'`, later ones are dropped.
    pub fn from_uppercased(s: &str) -> (r: ModelQuant)
        ensures
            r.0@ == quant_spec(s@, false),
    {
        let chars = chars_of(s);
        let ghost whole = chars@;
        let mut out: Vec<char> = Vec::new();
        let mut seen_sep = false;
        let mut i: usize = 0;
        assert(whole.skip(0) =~= whole);
        while i < chars.len()
            invariant
                i <= whole.len(),
                chars@ == whole,
                out@ + quant_spec(whole.skip(i as int), seen_sep) == quant_spec(whole, false),
            decreases whole.len() - i,
        {
            let c = chars[i];
            let ghost rest = whole.skip(i as int);
            let ghost before = out@;
            assert(rest[0] == c);
            assert(rest.drop_first() =~= whole.skip(i + 1));
            if c == '_' || c == '-' {
                if !seen_sep {
                    out.push(':');
                    assert(before + (seq![':'] + quant_spec(whole.skip(i + 1), true)) =~= out@
                        + quant_spec(whole.skip(i + 1), true));
                }
                seen_sep = true;
            } else {
                out.push(c);
                assert(before + (seq![c] + quant_spec(whole.skip(i + 1), seen_sep)) =~= out@
                    + quant_spec(whole.skip(i + 1), seen_sep));
            }
            i += 1;
        }
        assert(whole.skip(i as int) =~= Seq::<char>::empty());
        assert(out@ + Seq::<char>::empty() =~= out@);
        ModelQuant(string_of(out.as_slice()))
    }

    pub fn as_str(&self) -> (r: &str)
        ensures
            r@ == self.0@,
    {
        self.0.as_str()
    }
}

/// What `str::to_lowercase` gives for `s`.
pub uninterp spec fn lower_of(s: Seq<char>) -> Seq<char>;

/// Relies on `str::to_lowercase`: the lower-case form of `s`, which depends on
/// the characters of `s` alone.
#[verifier::external_body]
pub(crate) fn to_lower(s: &str) -> (r: String)
    ensures
        r@ == lower_of(s@),
{
    s.to_lowercase()
}

/// What `char::to_uppercase` yields for `c`, collected into a string.
pub uninterp spec fn char_upper_of(c: char) -> Seq<char>;

/// Relies on `char::to_uppercase`: the characters of the upper-case form of
/// `c`, which depend on `c` alone.
#[verifier::external_body]
fn char_to_upper(c: char) -> (r: String)
    ensures
        r@ == char_upper_of(c),
{
    c.to_uppercase().collect()
}

/// A character with the Unicode `White_Space` property.
pub open spec fn is_white(c: char) -> bool {
    let n = c as u32;
    (9 <= n && n <= 13) || n == 32 || n == 0x85 || n == 0xA0 || n == 0x1680 || (0x2000 <= n && n
        <= 0x200A) || n == 0x2028 || n == 0x2029 || n == 0x202F || n == 0x205F || n == 0x3000
}

fn is_white_exec(c: char) -> (r: bool)
    ensures
        r == is_white(c),
{
    let n = c as u32;
    (9 <= n && n <= 13) || n == 32 || n == 0x85 || n == 0xA0 || n == 0x1680 || (0x2000 <= n && n
        <= 0x200A) || n == 0x2028 || n == 0x2029 || n == 0x202F || n == 0x205F || n == 0x3000
}

pub open spec fn is_digit(c: char) -> bool {
    48 <= (c as u32) && (c as u32) <= 57
}

pub open spec fn is_path_sep(c: char) -> bool {
    c == '/' || c == '\\'
}

/// The index of the first `':'` of `s`, if any.
pub open spec fn first_colon(s: Seq<char>) -> Option<int>
    decreases s.len(),
{
    if s.len() == 0 {
        None
    } else {
        match first_colon(s.drop_last()) {
            Some(k) => Some(k),
            None => if s.last() == ':' {
                Some(s.len() - 1)
            } else {
                None
            },
        }
    }
}

/// The index of the last `'/'` or `'\\'` of `s`, if any.
pub open spec fn last_sep(s: Seq<char>) -> Option<int>
    decreases s.len(),
{
    if s.len() == 0 {
        None
    } else if is_path_sep(s.last()) {
        Some(s.len() - 1)
    } else {
        last_sep(s.drop_last())
    }
}

/// The base name of a model id: the tag after `':'` and any path before the
/// last `'/'` or `'\\'` removed.
pub open spec fn base_name(id: Seq<char>) -> Seq<char> {
    let untagged = match first_colon(id) {
        Some(k) => id.take(k),
        None => id,
    };
    match last_sep(untagged) {
        Some(k) => untagged.skip(k + 1),
        None => untagged,
    }
}

/// The character that stands at `i` once separators become spaces; a `'-'`
/// between two digits becomes `'.'`.
pub open spec fn spaced_char(s: Seq<char>, i: int) -> char {
    if s[i] == '_' {
        ' '
    } else if s[i] == '-' {
        if i > 0 && is_digit(s[i - 1]) && i + 1 < s.len() && is_digit(s[i + 1]) {
            '.'
        } else {
            ' '
        }
    } else {
        s[i]
    }
}

pub open spec fn spaced(s: Seq<char>) -> Seq<char> {
    Seq::new(s.len(), |i: int| spaced_char(s, i))
}

/// The length of the run of non-whitespace characters that `s` starts with.
pub open spec fn word_len(s: Seq<char>) -> nat
    decreases s.len(),
{
    if s.len() == 0 || is_white(s[0]) {
        0
    } else {
        1 + word_len(s.drop_first())
    }
}

/// The maximal runs of non-whitespace characters of `s`, in order.
pub open spec fn words(s: Seq<char>) -> Seq<Seq<char>>
    decreases s.len(),
{
    if s.len() == 0 {
        Seq::empty()
    } else if is_white(s[0]) {
        words(s.drop_first())
    } else {
        let k = word_len(s);
        if 0 < k <= s.len() {
            seq![s.take(k as int)] + words(s.skip(k as int))
        } else {
            Seq::empty()
        }
    }
}

/// The fixed spelling of a word whose lower-case form is an acronym.
pub open spec fn replacement(lower: Seq<char>) -> Option<Seq<char>> {
    if lower == "ai"@ {
        Some("AI"@)
    } else if lower == "api"@ {
        Some("API"@)
    } else if lower == "gpt"@ {
        Some("GPT"@)
    } else if lower == "lm"@ {
        Some("LM"@)
    } else if lower == "llm"@ {
        Some("LLM"@)
    } else if lower == "moe"@ {
        Some("MoE"@)
    } else if lower == "oss"@ {
        Some("OSS"@)
    } else if lower == "sd"@ {
        Some("SD"@)
    } else if lower == "sdxl"@ {
        Some("SDXL"@)
    } else if lower == "vlm"@ {
        Some("VLM"@)
    } else if lower == "xl"@ {
        Some("XL"@)
    } else if lower == "xxl"@ {
        Some("XXL"@)
    } else {
        None
    }
}

/// A word as it appears in a display name: its fixed spelling if it has
/// one, else with its first character upper-cased.
pub open spec fn pretty_word(w: Seq<char>) -> Seq<char> {
    match replacement(lower_of(w)) {
        Some(r) => r,
        None => if w.len() == 0 {
            w
        } else {
            char_upper_of(w[0]) + w.drop_first()
        },
    }
}

/// The display forms of `ws`, separated by single spaces.
pub open spec fn render(ws: Seq<Seq<char>>) -> Seq<char>
    decreases ws.len(),
{
    if ws.len() == 0 {
        Seq::empty()
    } else if ws.len() == 1 {
        pretty_word(ws[0])
    } else {
        render(ws.drop_last()) + seq![' '] + pretty_word(ws.last())
    }
}

/// The display name of a model id.
pub open spec fn display_name(id: Seq<char>) -> Seq<char> {
    render(words(spaced(base_name(id))))
}

fn replacement_exec(lower: &str) -> (r: Option<&'static str>)
    ensures
        match replacement(lower@) {
            Some(t) => r is Some && r->Some_0@ == t,
            None => r is None,
        },
{
    if str_eq(lower, "ai") {
        Some("AI")
    } else if str_eq(lower, "api") {
        Some("API")
    } else if str_eq(lower, "gpt") {
        Some("GPT")
    } else if str_eq(lower, "lm") {
        Some("LM")
    } else if str_eq(lower, "llm") {
        Some("LLM")
    } else if str_eq(lower, "moe") {
        Some("MoE")
    } else if str_eq(lower, "oss") {
        Some("OSS")
    } else if str_eq(lower, "sd") {
        Some("SD")
    } else if str_eq(lower, "sdxl") {
        Some("SDXL")
    } else if str_eq(lower, "vlm") {
        Some("VLM")
    } else if str_eq(lower, "xl") {
        Some("XL")
    } else if str_eq(lower, "xxl") {
        Some("XXL")
    } else {
        None
    }
}

fn is_digit_exec(c: char) -> (r: bool)
    ensures
        r == is_digit(c),
{
    48 <= (c as u32) && (c as u32) <= 57
}

fn pretty_word_exec(w: &Vec<char>, out: &mut String)
    ensures
        final(out)@ == old(out)@ + pretty_word(w@),
{
    let ghost start = out@;
    let text = string_of(w.as_slice());
    let lower = to_lower(text.as_str());
    match replacement_exec(lower.as_str()) {
        Some(r) => {
            out.append(r);
        },
        None => {
            if w.len() > 0 {
                let first = char_to_upper(w[0]);
                out.append(first.as_str());
                let n = w.len();
                let rest = copy_chars(w, 1, n);
                assert(rest@ =~= w@.drop_first());
                out.append(string_of(rest.as_slice()).as_str());
            }
        },
    }
    assert(out@ =~= start + pretty_word(w@));
}

proof fn lemma_word_len(s: Seq<char>, k: int)
    requires
        0 <= k <= s.len(),
        forall|m: int| 0 <= m < k ==> !is_white(s[m]),
        k == s.len() || is_white(s[k]),
    ensures
        word_len(s) == k,
    decreases k,
{
    if k > 0 {
        lemma_word_len(s.drop_first(), k - 1);
    }
}

/// The maximal runs of non-whitespace characters of `s`.
fn split_words(s: &Vec<char>) -> (r: Vec<Vec<char>>)
    ensures
        r@.map_values(|w: Vec<char>| w@) == words(s@),
{
    let n = s.len();
    let mut out: Vec<Vec<char>> = Vec::new();
    let mut i: usize = 0;
    assert(s@.skip(0) =~= s@);
    assert(out@.map_values(|w: Vec<char>| w@) + words(s@) =~= words(s@));
    while i < n
        invariant
            n == s@.len(),
            i <= n,
            out@.map_values(|w: Vec<char>| w@) + words(s@.skip(i as int)) == words(s@),
        decreases n - i,
    {
        let ghost rest = s@.skip(i as int);
        let ghost before = out@.map_values(|w: Vec<char>| w@);
        assert(rest[0] == s@[i as int]);
        if is_white_exec(s[i]) {
            assert(rest.drop_first() =~= s@.skip(i + 1));
            i += 1;
        } else {
            let mut j = i;
            while j < n && !is_white_exec(s[j])
                invariant
                    i <= j <= n,
                    n == s@.len(),
                    forall|m: int| i <= m < j ==> !is_white(s@[m]),
                decreases n - j,
            {
                j += 1;
            }
            proof {
                lemma_word_len(rest, j - i);
            }
            assert(rest.take(j - i) =~= s@.subrange(i as int, j as int));
            assert(rest.skip(j - i) =~= s@.skip(j as int));
            let w = copy_chars(s, i, j);
            out.push(w);
            assert(out@.map_values(|w: Vec<char>| w@) =~= before.push(w@));
            assert(before.push(w@) + words(s@.skip(j as int)) =~= before + (seq![w@] + words(
                s@.skip(j as int),
            )));
            i = j;
        }
    }
    assert(s@.skip(n as int) =~= Seq::<char>::empty());
    assert(out@.map_values(|w: Vec<char>| w@) + Seq::<Seq<char>>::empty() =~= out@.map_values(
        |w: Vec<char>| w@,
    ));
    out
}

/// The base name of an id, as characters.
fn base_name_exec(id: &str) -> (r: Vec<char>)
    ensures
        r@ == base_name(id@),
{
    let chars = chars_of(id);
    let n = chars.len();
    let mut end: usize = 0;
    while end < n && chars[end] != ':'
        invariant
            end <= n,
            n == chars@.len(),
            chars@ == id@,
            first_colon(chars@.take(end as int)) is None,
        decreases n - end,
    {
        assert(chars@.take(end + 1).drop_last() =~= chars@.take(end as int));
        end += 1;
    }
    proof {
        if end < n {
            assert(chars@.take(end + 1).drop_last() =~= chars@.take(end as int));
            lemma_first_colon_prefix(chars@, end + 1);
        } else {
            assert(chars@.take(n as int) =~= chars@);
        }
    }
    let untagged = copy_chars(&chars, 0, end);
    assert(untagged@ =~= chars@.take(end as int));
    let m = untagged.len();
    let mut k: usize = m;
    assert(untagged@.take(m as int) =~= untagged@);
    while k > 0 && untagged[k - 1] != '/' && untagged[k - 1] != '\\'
        invariant
            k <= m,
            m == untagged@.len(),
            last_sep(untagged@) == last_sep(untagged@.take(k as int)),
        decreases k,
    {
        assert(untagged@.take(k as int).drop_last() =~= untagged@.take(k - 1));
        k -= 1;
    }
    proof {
        assert(untagged@.take(m as int) =~= untagged@);
    }
    if k == 0 {
        assert(untagged@.take(0) =~= Seq::<char>::empty());
        untagged
    } else {
        let r = copy_chars(&untagged, k, m);
        assert(r@ =~= untagged@.skip(k as int));
        r
    }
}

/// A first colon found in a prefix is the first colon of the whole.
proof fn lemma_first_colon_prefix(s: Seq<char>, n: int)
    requires
        0 <= n <= s.len(),
        first_colon(s.take(n)) is Some,
    ensures
        first_colon(s) == first_colon(s.take(n)),
    decreases s.len() - n,
{
    if n < s.len() {
        assert(s.take(n + 1).drop_last() =~= s.take(n));
        lemma_first_colon_prefix(s, n + 1);
    } else {
        assert(s.take(n) =~= s);
    }
}

impl Model {
    /// A display name for the model: the tag after `':'` and any path are
    /// removed, `'_'` and `'-'` become spaces (a `'-'` between two digits
    /// becomes `'.'`), runs of whitespace collapse to one space, each word is
    /// capitalised, and known acronyms take their fixed spelling.
    pub fn name(&self) -> (r: String)
        ensures
            r@ == display_name(self.id@),
    {
        let base = base_name_exec(self.id.as_str());
        let n = base.len();
        let mut sp: Vec<char> = Vec::new();
        let mut i: usize = 0;
        while i < n
            invariant
                i <= n,
                n == base@.len(),
                sp@ == spaced(base@).take(i as int),
            decreases n - i,
        {
            let c = base[i];
            let d = if c == '_' {
                ' '
            } else if c == '-' {
                if i > 0 && is_digit_exec(base[i - 1]) && i + 1 < n && is_digit_exec(base[i + 1]) {
                    '.'
                } else {
                    ' '
                }
            } else {
                c
            };
            sp.push(d);
            i += 1;
            assert(sp@ =~= spaced(base@).take(i as int));
        }
        assert(spaced(base@).take(n as int) =~= spaced(base@));
        let ws = split_words(&sp);
        let ghost wv = ws@.map_values(|w: Vec<char>| w@);
        let mut out = String::new();
        let mut k: usize = 0;
        while k < ws.len()
            invariant
                k <= ws@.len(),
                wv == ws@.map_values(|w: Vec<char>| w@),
                out@ == render(wv.take(k as int)),
            decreases ws@.len() - k,
        {
            let ghost before = out@;
            assert(wv.take(k + 1).drop_last() =~= wv.take(k as int));
            if k > 0 {
                out.append(" ");
                proof {
                    reveal_strlit(" ");
                }
            }
            pretty_word_exec(&ws[k], &mut out);
            proof {
                if k == 0 {
                    assert(wv.take(1)[0] == wv[0]);
                    assert(Seq::<char>::empty() + pretty_word(wv[0]) =~= pretty_word(wv[0]));
                } else {
                    assert(" "@ =~= seq![' ']);
                }
            }
            k += 1;
        }
        assert(wv.take(ws@.len() as int) =~= wv);
        out
    }

    /// The display name, followed by the parameter count and quantization in
    /// parentheses when known.
    pub fn to_string(&self) -> (r: String)
        ensures
            r@ == display_name(self.id@) + match (self.parameters, self.quantization) {
                (Some(p), Some(q)) => " ("@ + p.0@ + " "@ + q.0@ + ")"@,
                (Some(p), None) => " ("@ + p.0@ + ")"@,
                (None, Some(q)) => " ("@ + q.0@ + ")"@,
                (None, None) => Seq::empty(),
            },
    {
        let mut out = self.name();
        let ghost name = out@;
        match (&self.parameters, &self.quantization) {
            (Some(p), Some(q)) => {
                out.append(" (");
                out.append(p.as_str());
                out.append(" ");
                out.append(q.as_str());
                out.append(")");
            },
            (Some(p), None) => {
                out.append(" (");
                out.append(p.as_str());
                out.append(")");
            },
            (None, Some(q)) => {
                out.append(" (");
                out.append(q.as_str());
                out.append(")");
            },
            (None, None) => {},
        }
        assert(out@ =~= name + match (self.parameters, self.quantization) {
            (Some(p), Some(q)) => " ("@ + p.0@ + " "@ + q.0@ + ")"@,
            (Some(p), None) => " ("@ + p.0@ + ")"@,
            (None, Some(q)) => " ("@ + q.0@ + ")"@,
            (None, None) => Seq::empty(),
        });
        out
    }
}

} // verus!
