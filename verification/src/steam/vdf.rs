//! Valve Data Format (VDF) text, as Steam writes it in `libraryfolders.vdf` and
//! `appmanifest_*.acf`.
//!
//! A document is a sequence of `"key" value` pairs, where a value is either a quoted string
//! or a `{ ... }` block of further pairs. Whitespace and `//` line comments separate tokens.
//! Inside a quoted string, `\n`, `\t`, `\\` and `\"` are escapes; any other backslash is kept
//! together with the character after it. When a key occurs twice in one block, the later
//! value replaces the earlier one.

use vstd::prelude::*;
use crate::error::WandaError;
use crate::text::{chars_of, spec_is_whitespace, is_whitespace, string_from_chars, string_of, push_str};

verus! {

/// The mathematical form of a VDF value: a string, or the entries of a block in the order in
/// which their keys first appeared.
pub enum SpecVdf {
    Str(Seq<char>),
    Obj(Seq<(Seq<char>, SpecVdf)>),
}

/// A parsed VDF value: a string, or a block of key/value entries whose keys are distinct.
#[derive(Debug)]
pub enum VdfValue {
    String(String),
    Object(Vec<(String, VdfValue)>),
}

/// The entries of a block, viewed.
pub open spec fn entries_view(es: Seq<(String, VdfValue)>) -> Seq<(Seq<char>, SpecVdf)>
    decreases es,
{
    if es.len() == 0 {
        Seq::empty()
    } else {
        entries_view(es.drop_last()).push((es.last().0@, es.last().1.spec_view()))
    }
}

impl VdfValue {
    /// The mathematical form of this value.
    pub open spec fn spec_view(self) -> SpecVdf
        decreases self,
    {
        match self {
            VdfValue::String(s) => SpecVdf::Str(s@),
            VdfValue::Object(es) => SpecVdf::Obj(entries_view(es@)),
        }
    }
}

impl View for VdfValue {
    type V = SpecVdf;

    open spec fn view(&self) -> SpecVdf {
        self.spec_view()
    }
}

/// Viewing entries keeps their number and views each one in place.
pub proof fn lemma_entries_view(es: Seq<(String, VdfValue)>)
    ensures
        entries_view(es).len() == es.len(),
        forall|i: int|
            0 <= i < es.len() ==> #[trigger] entries_view(es)[i] == (es[i].0@, es[i].1@),
    decreases es.len(),
{
    if es.len() > 0 {
        lemma_entries_view(es.drop_last());
    }
}

/// Why a VDF text was rejected.
#[derive(Debug, Clone, Copy)]
pub enum VdfError {
    /// A value started with something other than `{` or `"`.
    UnexpectedChar(char),
    /// The text ended where a value was expected.
    UnexpectedEnd,
    /// Inside a block, something other than a key or `}` came.
    ExpectedKeyOrClose(char),
    /// The text ended inside a block.
    EndInObject,
    /// The text ended right after a backslash inside a string.
    EndInEscape,
    /// The text ended inside a string.
    EndInString,
    /// A quote was expected; the given character came instead.
    ExpectedQuote(char),
    /// A quote was expected; the text ended instead.
    ExpectedQuoteGotEnd,
}

/// `'c'`, as the messages quote a character.
pub open spec fn quoted(c: char) -> Seq<char> {
    seq!['\''] + seq![c] + seq!['\'']
}

impl VdfError {
    /// The message the parser reports for this error.
    pub open spec fn spec_message(self) -> Seq<char> {
        match self {
            VdfError::UnexpectedChar(c) => "Unexpected character: "@ + seq![c],
            VdfError::UnexpectedEnd => "Unexpected end of input"@,
            VdfError::ExpectedKeyOrClose(c) => "Expected '\"' or '}', got "@ + quoted(c),
            VdfError::EndInObject => "Unexpected end of input in object"@,
            VdfError::EndInEscape => "Unexpected end of input in escape sequence"@,
            VdfError::EndInString => "Unexpected end of input in string"@,
            VdfError::ExpectedQuote(c) => "Expected '\"', got "@ + quoted(c),
            VdfError::ExpectedQuoteGotEnd => "Expected '\"', got end of input"@,
        }
    }

    /// The message the parser reports for this error.
    pub fn message(&self) -> (m: String)
        ensures
            m@ == self.spec_message(),
    {
        let mut out: Vec<char> = Vec::new();
        match *self {
            VdfError::UnexpectedChar(c) => {
                push_str(&mut out, "Unexpected character: ");
                out.push(c);
            },
            VdfError::UnexpectedEnd => push_str(&mut out, "Unexpected end of input"),
            VdfError::ExpectedKeyOrClose(c) => {
                push_str(&mut out, "Expected '\"' or '}', got ");
                out.push('\'');
                out.push(c);
                out.push('\'');
            },
            VdfError::EndInObject => push_str(&mut out, "Unexpected end of input in object"),
            VdfError::EndInEscape => push_str(
                &mut out,
                "Unexpected end of input in escape sequence",
            ),
            VdfError::EndInString => push_str(&mut out, "Unexpected end of input in string"),
            VdfError::ExpectedQuote(c) => {
                push_str(&mut out, "Expected '\"', got ");
                out.push('\'');
                out.push(c);
                out.push('\'');
            },
            VdfError::ExpectedQuoteGotEnd => push_str(&mut out, "Expected '\"', got end of input"),
        }
        assert(out@ =~= self.spec_message());
        string_from_chars(out.as_slice())
    }
}

/// Where skipping whitespace and `//` comments from `p` stops; `comment` says whether `p` is
/// inside a comment.
pub open spec fn spec_skip(s: Seq<char>, p: int, comment: bool) -> int
    decreases s.len() - p,
{
    if p < 0 || p >= s.len() {
        p
    } else if comment {
        if s[p] == '\n' {
            spec_skip(s, p + 1, false)
        } else {
            spec_skip(s, p + 1, true)
        }
    } else if spec_is_whitespace(s[p]) {
        spec_skip(s, p + 1, false)
    } else if s[p] == '/' {
        if p + 1 < s.len() && s[p + 1] == '/' {
            spec_skip(s, p + 1, true)
        } else {
            spec_skip(s, p + 1, false)
        }
    } else {
        p
    }
}

/// Skipping never moves backwards, and stays within the text.
pub proof fn lemma_skip_bounds(s: Seq<char>, p: int, comment: bool)
    requires
        0 <= p <= s.len(),
    ensures
        p <= spec_skip(s, p, comment) <= s.len(),
    decreases s.len() - p,
{
    if p < s.len() {
        lemma_skip_bounds(s, p + 1, true);
        lemma_skip_bounds(s, p + 1, false);
    }
}

/// The characters an escape sequence `\e` stands for.
pub open spec fn escape_chars(e: char) -> Seq<char> {
    if e == 'n' {
        seq!['\n']
    } else if e == 't' {
        seq!['\t']
    } else if e == '\\' {
        seq!['\\']
    } else if e == '"' {
        seq!['"']
    } else {
        seq!['\\', e]
    }
}

/// The rest of a quoted string from `q` on, `acc` being what was read before `q`.
pub open spec fn spec_string_body(s: Seq<char>, q: int, acc: Seq<char>) -> Result<
    (Seq<char>, int),
    VdfError,
>
    decreases s.len() - q,
{
    if q < 0 || q >= s.len() {
        Err(VdfError::EndInString)
    } else if s[q] == '"' {
        Ok((acc, q + 1))
    } else if s[q] == '\\' {
        if q + 1 >= s.len() {
            Err(VdfError::EndInEscape)
        } else {
            spec_string_body(s, q + 2, acc + escape_chars(s[q + 1]))
        }
    } else {
        spec_string_body(s, q + 1, acc.push(s[q]))
    }
}

/// A quoted string starting at `p`: its contents and the position after the closing quote.
pub open spec fn spec_parse_string(s: Seq<char>, p: int) -> Result<(Seq<char>, int), VdfError> {
    if p < 0 || p >= s.len() {
        Err(VdfError::ExpectedQuoteGotEnd)
    } else if s[p] != '"' {
        Err(VdfError::ExpectedQuote(s[p]))
    } else {
        spec_string_body(s, p + 1, Seq::empty())
    }
}

/// A string that was read ends after where it started, within the text.
pub proof fn lemma_string_body_bounds(s: Seq<char>, q: int, acc: Seq<char>)
    requires
        0 <= q,
    ensures
        spec_string_body(s, q, acc) matches Ok((_, r)) ==> q < r <= s.len(),
    decreases s.len() - q,
{
    if 0 <= q < s.len() && s[q] != '"' {
        if s[q] == '\\' {
            if q + 1 < s.len() {
                lemma_string_body_bounds(s, q + 2, acc + escape_chars(s[q + 1]));
            }
        } else {
            lemma_string_body_bounds(s, q + 1, acc.push(s[q]));
        }
    }
}

/// The position of the first entry with key `k`.
pub open spec fn key_index(es: Seq<(Seq<char>, SpecVdf)>, k: Seq<char>) -> Option<int>
    decreases es.len(),
{
    if es.len() == 0 {
        None
    } else {
        match key_index(es.drop_last(), k) {
            Some(i) => Some(i),
            None => if es.last().0 == k {
                Some(es.len() - 1)
            } else {
                None
            },
        }
    }
}

/// The entries with `(k, v)` added: the value of an existing key `k` is replaced in place,
/// a new key goes at the end.
pub open spec fn spec_insert(es: Seq<(Seq<char>, SpecVdf)>, k: Seq<char>, v: SpecVdf) -> Seq<
    (Seq<char>, SpecVdf),
> {
    match key_index(es, k) {
        Some(i) => es.update(i, (k, v)),
        None => es.push((k, v)),
    }
}

/// A value starting at `p` (after whitespace): the value and the position after it.
pub open spec fn spec_parse_value(s: Seq<char>, p: int) -> Result<(SpecVdf, int), VdfError>
    decreases s.len() - p, 1int,
{
    if p < 0 || p > s.len() {
        Err(VdfError::UnexpectedEnd)
    } else {
        let q = spec_skip(s, p, false);
        if q < p || q >= s.len() {
            Err(VdfError::UnexpectedEnd)
        } else if s[q] == '{' {
            spec_members(s, q + 1, Seq::empty())
        } else if s[q] == '"' {
            match spec_parse_string(s, q) {
                Ok((t, r)) => Ok((SpecVdf::Str(t), r)),
                Err(e) => Err(e),
            }
        } else {
            Err(VdfError::UnexpectedChar(s[q]))
        }
    }
}

/// The entries of a block from `p` on, `acc` being the entries read before `p`; ends at `}`.
pub open spec fn spec_members(s: Seq<char>, p: int, acc: Seq<(Seq<char>, SpecVdf)>) -> Result<
    (SpecVdf, int),
    VdfError,
>
    decreases s.len() - p, 0int,
{
    if p < 0 || p > s.len() {
        Err(VdfError::EndInObject)
    } else {
        let r = spec_skip(s, p, false);
        if r < p || r >= s.len() {
            Err(VdfError::EndInObject)
        } else if s[r] == '}' {
            Ok((SpecVdf::Obj(acc), r + 1))
        } else if s[r] == '"' {
            match spec_parse_string(s, r) {
                Err(e) => Err(e),
                Ok((k, r2)) => {
                    let r3 = spec_skip(s, r2, false);
                    if r2 <= r || r3 < r2 || r3 > s.len() {
                        Err(VdfError::EndInObject)
                    } else {
                        match spec_parse_value(s, r3) {
                            Err(e) => Err(e),
                            Ok((v, r4)) => if r4 <= r || r4 > s.len() {
                                Err(VdfError::EndInObject)
                            } else {
                                spec_members(s, r4, spec_insert(acc, k, v))
                            },
                        }
                    }
                },
            }
        } else {
            Err(VdfError::ExpectedKeyOrClose(s[r]))
        }
    }
}

/// The top-level entries from `p` on, `acc` being the entries read before `p`.
pub open spec fn spec_root(s: Seq<char>, p: int, acc: Seq<(Seq<char>, SpecVdf)>) -> Result<
    SpecVdf,
    VdfError,
>
    decreases s.len() - p,
{
    if p < 0 || p >= s.len() {
        Ok(SpecVdf::Obj(acc))
    } else {
        let q = spec_skip(s, p, false);
        if q < p || q >= s.len() {
            Ok(SpecVdf::Obj(acc))
        } else {
            match spec_parse_string(s, q) {
                Err(e) => Err(e),
                Ok((k, q2)) => {
                    let q3 = spec_skip(s, q2, false);
                    match spec_parse_value(s, q3) {
                        Err(e) => Err(e),
                        Ok((v, q4)) => {
                            let q5 = spec_skip(s, q4, false);
                            if q5 <= q || q5 > s.len() {
                                Ok(SpecVdf::Obj(acc))
                            } else {
                                spec_root(s, q5, spec_insert(acc, k, v))
                            }
                        },
                    }
                },
            }
        }
    }
}

/// What parsing a whole VDF text gives: a block holding the top-level entries, or an error.
pub open spec fn spec_parse_vdf(s: Seq<char>) -> Result<SpecVdf, VdfError> {
    spec_root(s, spec_skip(s, 0, false), Seq::empty())
}


/// Skipping from `p` stops at `r` when everything from `p` to `r` is whitespace and `r`
/// holds neither whitespace nor `/`.
proof fn lemma_skip_whitespace_run(s: Seq<char>, p: int, r: int)
    requires
        0 <= p <= r < s.len(),
        forall|i: int| p <= i < r ==> spec_is_whitespace(#[trigger] s[i]),
        !spec_is_whitespace(s[r]),
        s[r] != '/',
    ensures
        spec_skip(s, p, false) == r,
    decreases r - p,
{
    if p < r {
        lemma_skip_whitespace_run(s, p + 1, r);
    }
}

/// A block opened at `p` and closed after nothing but whitespace is an empty block: `{`,
/// whitespace, `}` parses as a block with no entries, ending after the `}`.
pub proof fn lemma_empty_block(s: Seq<char>, p: int, r: int)
    requires
        0 <= p < r < s.len(),
        s[p] == '{',
        s[r] == '}',
        forall|i: int| p < i < r ==> spec_is_whitespace(#[trigger] s[i]),
    ensures
        spec_parse_value(s, p) == Ok::<(SpecVdf, int), VdfError>((SpecVdf::Obj(Seq::empty()), r + 1)),
{
    assert(!spec_is_whitespace('{'));
    assert(!spec_is_whitespace('}'));
    lemma_skip_whitespace_run(s, p, p);
    lemma_skip_whitespace_run(s, p + 1, r);
}

/// Reading the body of a quoted string that holds no `"` and no `\` gives its characters and
/// ends after the closing quote.
proof fn lemma_plain_string_body(s: Seq<char>, q: int, acc: Seq<char>, k: Seq<char>)
    requires
        0 <= q,
        q + k.len() < s.len(),
        s.subrange(q, q + k.len() as int) == k,
        s[q + k.len()] == '"',
        forall|i: int| 0 <= i < k.len() ==> #[trigger] k[i] != '"' && k[i] != '\\',
    ensures
        spec_string_body(s, q, acc) == Ok::<(Seq<char>, int), VdfError>((acc + k, q + k.len() + 1)),
    decreases k.len(),
{
    if k.len() == 0 {
        assert(acc + k =~= acc);
    } else {
        assert(s[q] == s.subrange(q, q + k.len() as int)[0]);
        assert(s[q] == k[0]);
        let k2 = k.drop_first();
        assert(s.subrange(q + 1, q + 1 + k2.len()) =~= k2) by {
            assert forall|i: int| 0 <= i < k2.len() implies s.subrange(q + 1, q + 1 + k2.len())[i]
                == k2[i] by {
                assert(s[q + 1 + i] == s.subrange(q, q + k.len() as int)[i + 1]);
            }
        }
        assert forall|i: int| 0 <= i < k2.len() implies #[trigger] k2[i] != '"' && k2[i] != '\\' by {
            assert(k2[i] == k[i + 1]);
        }
        lemma_plain_string_body(s, q + 1, acc.push(k[0]), k2);
        assert(acc.push(k[0]) + k2 =~= acc + k);
    }
}

proof fn lemma_root_single(s: Seq<char>, k: Seq<char>)
    requires
        s.len() == k.len() + 6int,
        spec_skip(s, 0, false) == 0,
        spec_parse_string(s, 0) == Ok::<(Seq<char>, int), VdfError>((k, k.len() + 2int)),
        spec_skip(s, k.len() + 2int, false) == k.len() + 3int,
        spec_parse_value(s, k.len() + 3int) == Ok::<(SpecVdf, int), VdfError>(
            (SpecVdf::Obj(Seq::empty()), k.len() + 6int),
        ),
    ensures
        spec_parse_vdf(s) == Ok::<SpecVdf, VdfError>(
            SpecVdf::Obj(seq![(k, SpecVdf::Obj(Seq::empty()))]),
        ),
{
    let n = k.len() as int;
    let ins = spec_insert(Seq::empty(), k, SpecVdf::Obj(Seq::empty()));
    assert(key_index(Seq::<(Seq<char>, SpecVdf)>::empty(), k) is None);
    assert(ins =~= seq![(k, SpecVdf::Obj(Seq::empty()))]);
    assert(spec_skip(s, n + 6, false) == n + 6);
    assert(spec_root(s, n + 6, ins) == Ok::<SpecVdf, VdfError>(SpecVdf::Obj(ins)));
}

/// A file holding one key with an empty block, `"k" { }`, parses as a block whose only
/// entry is `k` with an empty block (for a key without `"` or `\`): a library with no games
/// is read, not rejected.
pub proof fn lemma_key_with_empty_block(k: Seq<char>)
    requires
        forall|i: int| 0 <= i < k.len() ==> #[trigger] k[i] != '"' && k[i] != '\\',
    ensures
        spec_parse_vdf(seq!['"'] + k + seq!['"', ' ', '{', ' ', '}']) == Ok::<SpecVdf, VdfError>(
            SpecVdf::Obj(seq![(k, SpecVdf::Obj(Seq::empty()))]),
        ),
{
    let s = seq!['"'] + k + seq!['"', ' ', '{', ' ', '}'];
    let n = k.len() as int;
    assert(s.len() == n + 6);
    assert(s[0] == '"' && s[n + 1] == '"' && s[n + 2] == ' ' && s[n + 3] == '{' && s[n + 4]
        == ' ' && s[n + 5] == '}');
    assert(spec_is_whitespace(' ') && !spec_is_whitespace('"') && !spec_is_whitespace('{'));
    assert(spec_skip(s, 0, false) == 0) by {
        lemma_skip_whitespace_run(s, 0, 0);
    }
    assert(spec_parse_string(s, 0) == Ok::<(Seq<char>, int), VdfError>((k, n + 2))) by {
        assert(s.subrange(1, 1 + n) =~= k);
        lemma_plain_string_body(s, 1, Seq::empty(), k);
        assert(Seq::<char>::empty() + k =~= k);
    }
    assert(spec_skip(s, n + 2, false) == n + 3) by {
        lemma_skip_whitespace_run(s, n + 2, n + 3);
    }
    assert(spec_parse_value(s, n + 3) == Ok::<(SpecVdf, int), VdfError>(
        (SpecVdf::Obj(Seq::empty()), n + 6),
    )) by {
        lemma_empty_block(s, n + 3, n + 5);
    }
    lemma_root_single(s, k);
}

/// `key_index` finds the first entry with the key, if there is one.
pub proof fn lemma_key_index(es: Seq<(Seq<char>, SpecVdf)>, k: Seq<char>)
    ensures
        key_index(es, k) matches Some(i) ==> 0 <= i < es.len() && es[i].0 == k && forall|j: int|
            0 <= j < i ==> es[j].0 != k,
        key_index(es, k) is None ==> forall|j: int| 0 <= j < es.len() ==> es[j].0 != k,
    decreases es.len(),
{
    if es.len() > 0 {
        lemma_key_index(es.drop_last(), k);
        assert forall|j: int| 0 <= j < es.len() - 1 implies es[j] == es.drop_last()[j] by {}
    }
}

/// Skips whitespace and `//` comments from `p`.
fn skip_ws(s: &Vec<char>, p: usize) -> (r: usize)
    requires
        p <= s.len(),
    ensures
        r as int == spec_skip(s@, p as int, false),
        p <= r <= s.len(),
{
    proof {
        lemma_skip_bounds(s@, p as int, false);
    }
    let mut i = p;
    let mut comment = false;
    while i < s.len()
        invariant
            p <= i <= s.len(),
            spec_skip(s@, p as int, false) == spec_skip(s@, i as int, comment),
        decreases s.len() - i,
    {
        let c = s[i];
        if comment {
            if c == '\n' {
                comment = false;
            }
        } else if is_whitespace(c) {
        } else if c == '/' {
            if i + 1 < s.len() && s[i + 1] == '/' {
                comment = true;
            }
        } else {
            return i;
        }
        i = i + 1;
    }
    i
}

/// The quoted string at `p`.
fn parse_string(s: &Vec<char>, p: usize) -> (r: Result<(String, usize), VdfError>)
    requires
        p <= s.len(),
    ensures
        match (r, spec_parse_string(s@, p as int)) {
            (Ok((t, q)), Ok((st, sq))) => t@ == st && q == sq,
            (Err(e), Err(se)) => e == se,
            _ => false,
        },
        r matches Ok((_, q)) ==> p < q <= s.len(),
{
    if p >= s.len() {
        return Err(VdfError::ExpectedQuoteGotEnd);
    }
    if s[p] != '"' {
        return Err(VdfError::ExpectedQuote(s[p]));
    }
    let mut acc: Vec<char> = Vec::new();
    let mut q = p + 1;
    loop
        invariant
            p < q <= s.len(),
            spec_parse_string(s@, p as int) == spec_string_body(s@, q as int, acc@),
        decreases s.len() - q,
    {
        if q >= s.len() {
            return Err(VdfError::EndInString);
        }
        let c = s[q];
        if c == '"' {
            return Ok((string_from_chars(acc.as_slice()), q + 1));
        } else if c == '\\' {
            if q + 1 >= s.len() {
                return Err(VdfError::EndInEscape);
            }
            let e = s[q + 1];
            let ghost before = acc@;
            if e == 'n' {
                acc.push('\n');
            } else if e == 't' {
                acc.push('\t');
            } else if e == '\\' {
                acc.push('\\');
            } else if e == '"' {
                acc.push('"');
            } else {
                acc.push('\\');
                acc.push(e);
            }
            assert(acc@ =~= before + escape_chars(e));
            q = q + 2;
        } else {
            acc.push(c);
            q = q + 1;
        }
    }
}

/// Adds `(k, v)` to the entries: an existing key `k` gets the new value in place, a new key
/// goes at the end.
fn insert_entry(acc: &mut Vec<(String, VdfValue)>, k: String, v: VdfValue)
    ensures
        entries_view(final(acc)@) == spec_insert(entries_view(old(acc)@), k@, v@),
{
    let ghost old_view = entries_view(acc@);
    proof {
        lemma_entries_view(acc@);
        lemma_key_index(old_view, k@);
    }
    let mut i: usize = 0;
    while i < acc.len()
        invariant
            i <= acc.len(),
            acc@ == old(acc)@,
            old_view == entries_view(acc@),
            old_view.len() == acc@.len(),
            forall|j: int| 0 <= j < acc@.len() ==> #[trigger] old_view[j] == (acc@[j].0@, acc@[j].1@),
            forall|j: int| 0 <= j < i ==> acc@[j].0@ != k@,
        decreases acc.len() - i,
    {
        if acc[i].0 == k {
            proof {
                lemma_key_index(old_view, k@);
                assert(key_index(old_view, k@) == Some(i as int)) by {
                    if key_index(old_view, k@) is None {
                        assert(old_view[i as int].0 == k@);
                    } else {
                        let m = key_index(old_view, k@)->0;
                        assert(old_view[m].0 == k@);
                        assert(old_view[i as int].0 == k@);
                        assert(!(m < i));
                        assert(!(m > i));
                    }
                }
            }
            acc.set(i, (k, v));
            proof {
                lemma_entries_view(acc@);
                assert(entries_view(acc@) =~= old_view.update(i as int, (k@, v@)));
            }
            return;
        }
        i = i + 1;
    }
    proof {
        assert(key_index(old_view, k@) is None) by {
            if key_index(old_view, k@) is Some {
                let m = key_index(old_view, k@)->0;
                assert(old_view[m].0 == k@);
            }
        }
    }
    acc.push((k, v));
    proof {
        lemma_entries_view(acc@);
        assert(entries_view(acc@) =~= old_view.push((k@, v@)));
    }
}

/// A value at `p` (after whitespace).
fn parse_value(s: &Vec<char>, p: usize) -> (r: Result<(VdfValue, usize), VdfError>)
    requires
        p <= s.len(),
    ensures
        match (r, spec_parse_value(s@, p as int)) {
            (Ok((v, q)), Ok((sv, sq))) => v@ == sv && q == sq,
            (Err(e), Err(se)) => e == se,
            _ => false,
        },
        r matches Ok((_, q)) ==> p < q <= s.len(),
    decreases s.len() - p, 1int,
{
    let q = skip_ws(s, p);
    if q >= s.len() {
        return Err(VdfError::UnexpectedEnd);
    }
    if s[q] == '{' {
        let acc: Vec<(String, VdfValue)> = Vec::new();
        assert(entries_view(acc@) =~= Seq::<(Seq<char>, SpecVdf)>::empty());
        parse_members(s, q + 1, acc)
    } else if s[q] == '"' {
        match parse_string(s, q) {
            Ok((t, r)) => Ok((VdfValue::String(t), r)),
            Err(e) => Err(e),
        }
    } else {
        Err(VdfError::UnexpectedChar(s[q]))
    }
}

/// The entries of a block from `p` on, after the entries `acc`; ends after `}`.
fn parse_members(s: &Vec<char>, p: usize, acc: Vec<(String, VdfValue)>) -> (r: Result<
    (VdfValue, usize),
    VdfError,
>)
    requires
        0 < p <= s.len(),
    ensures
        match (r, spec_members(s@, p as int, entries_view(acc@))) {
            (Ok((v, q)), Ok((sv, sq))) => v@ == sv && q == sq,
            (Err(e), Err(se)) => e == se,
            _ => false,
        },
        r matches Ok((_, q)) ==> p < q <= s.len(),
    decreases s.len() - p, 0int,
{
    let r = skip_ws(s, p);
    if r >= s.len() {
        return Err(VdfError::EndInObject);
    }
    if s[r] == '}' {
        return Ok((VdfValue::Object(acc), r + 1));
    }
    if s[r] != '"' {
        return Err(VdfError::ExpectedKeyOrClose(s[r]));
    }
    let (k, r2) = match parse_string(s, r) {
        Ok(x) => x,
        Err(e) => {
            return Err(e);
        },
    };
    let r3 = skip_ws(s, r2);
    let (v, r4) = match parse_value(s, r3) {
        Ok(x) => x,
        Err(e) => {
            return Err(e);
        },
    };
    let mut acc = acc;
    insert_entry(&mut acc, k, v);
    parse_members(s, r4, acc)
}

/// Parses a whole VDF text given as characters.
fn parse_root(s: &Vec<char>) -> (r: Result<VdfValue, VdfError>)
    ensures
        match (r, spec_parse_vdf(s@)) {
            (Ok(v), Ok(sv)) => v@ == sv,
            (Err(e), Err(se)) => e == se,
            _ => false,
        },
{
    let mut acc: Vec<(String, VdfValue)> = Vec::new();
    assert(entries_view(acc@) =~= Seq::<(Seq<char>, SpecVdf)>::empty());
    let mut p = skip_ws(s, 0);
    loop
        invariant
            p <= s.len(),
            spec_parse_vdf(s@) == spec_root(s@, p as int, entries_view(acc@)),
        decreases s.len() - p,
    {
        if p >= s.len() {
            return Ok(VdfValue::Object(acc));
        }
        let q = skip_ws(s, p);
        if q >= s.len() {
            return Ok(VdfValue::Object(acc));
        }
        let (k, q2) = match parse_string(s, q) {
            Ok(x) => x,
            Err(e) => {
                return Err(e);
            },
        };
        let q3 = skip_ws(s, q2);
        let (v, q4) = match parse_value(s, q3) {
            Ok(x) => x,
            Err(e) => {
                return Err(e);
            },
        };
        let q5 = skip_ws(s, q4);
        insert_entry(&mut acc, k, v);
        p = q5;
    }
}

/// Parses VDF text: the top-level entries as a block, or the message of the first error.
pub fn parse_vdf(content: &str) -> (r: Result<VdfValue, String>)
    ensures
        match (r, spec_parse_vdf(content@)) {
            (Ok(v), Ok(sv)) => v@ == sv,
            (Err(m), Err(e)) => m@ == e.spec_message(),
            _ => false,
        },
{
    let chars = chars_of(content);
    match parse_root(&chars) {
        Ok(v) => Ok(v),
        Err(e) => Err(e.message()),
    }
}


/// Parses the text of the VDF file at `path`: a parse error becomes `VdfParseError` for that
/// file, with the error's message as the reason.
pub fn parse_vdf_file(path: &str, content: &str) -> (r: Result<VdfValue, WandaError>)
    ensures
        match spec_parse_vdf(content@) {
            Ok(sv) => r matches Ok(v) && v@ == sv,
            Err(e) => r matches Err(WandaError::VdfParseError { path: p, reason }) && p@ == path@
                && reason@ == e.spec_message(),
        },
{
    match parse_vdf(content) {
        Ok(v) => Ok(v),
        Err(e) => Err(WandaError::VdfParseError { path: string_of(path), reason: e }),
    }
}

impl SpecVdf {
    /// The value under key `k`, for a block that has one.
    pub open spec fn spec_get(self, k: Seq<char>) -> Option<SpecVdf> {
        match self {
            SpecVdf::Obj(es) => match key_index(es, k) {
                Some(i) => Some(es[i].1),
                None => None,
            },
            SpecVdf::Str(_) => None,
        }
    }
}

impl VdfValue {
    /// The string, if this is a string value.
    pub fn as_str(&self) -> (r: Option<&str>)
        ensures
            match self@ {
                SpecVdf::Str(t) => r matches Some(x) && x@ == t,
                SpecVdf::Obj(_) => r is None,
            },
    {
        match self {
            VdfValue::String(s) => Some(s.as_str()),
            VdfValue::Object(_) => None,
        }
    }

    /// The entries, if this is a block.
    pub fn as_object(&self) -> (r: Option<&Vec<(String, VdfValue)>>)
        ensures
            match self@ {
                SpecVdf::Obj(es) => r matches Some(v) && entries_view(v@) == es,
                SpecVdf::Str(_) => r is None,
            },
    {
        match self {
            VdfValue::String(_) => None,
            VdfValue::Object(obj) => Some(obj),
        }
    }

    /// The value under `key`, if this is a block that has that key.
    pub fn get(&self, key: &str) -> (r: Option<&VdfValue>)
        ensures
            match r {
                Some(v) => self@.spec_get(key@) == Some(v@),
                None => self@.spec_get(key@) is None,
            },
    {
        let es = match self.as_object() {
            Some(es) => es,
            None => {
                return None;
            },
        };
        let k = string_of(key);
        let ghost view = entries_view(es@);
        proof {
            lemma_entries_view(es@);
            lemma_key_index(view, key@);
        }
        let mut i: usize = 0;
        while i < es.len()
            invariant
                i <= es.len(),
                k@ == key@,
                view == entries_view(es@),
                view.len() == es@.len(),
                self@ == SpecVdf::Obj(view),
                forall|j: int| 0 <= j < es@.len() ==> #[trigger] view[j] == (es@[j].0@, es@[j].1@),
                forall|j: int| 0 <= j < i ==> es@[j].0@ != key@,
            decreases es.len() - i,
        {
            if es[i].0 == k {
                proof {
                    lemma_key_index(view, key@);
                    assert(view[i as int].0 == key@);
                    assert(key_index(view, key@) == Some(i as int)) by {
                        if key_index(view, key@) is Some {
                            let m = key_index(view, key@)->0;
                            assert(view[m].0 == key@);
                            assert(!(m < i));
                        }
                    }
                }
                return Some(&es[i].1);
            }
            i = i + 1;
        }
        proof {
            lemma_key_index(view, key@);
            if key_index(view, key@) is Some {
                let m = key_index(view, key@)->0;
                assert(view[m].0 == key@);
            }
        }
        None
    }

    /// The string under `key`, if this is a block whose value for `key` is a string.
    pub fn get_str(&self, key: &str) -> (r: Option<&str>)
        ensures
            match r {
                Some(x) => self@.spec_get(key@) == Some(SpecVdf::Str(x@)),
                None => !(self@.spec_get(key@) matches Some(SpecVdf::Str(_))),
            },
    {
        match self.get(key) {
            Some(v) => v.as_str(),
            None => None,
        }
    }
}

/// The keys of a block's entries are pairwise distinct.
pub open spec fn keys_distinct(es: Seq<(Seq<char>, SpecVdf)>) -> bool {
    forall|i: int, j: int| 0 <= i < j < es.len() ==> es[i].0 != es[j].0
}

/// Every block inside a value, at any depth, has pairwise distinct keys.
pub open spec fn spec_wf(v: SpecVdf) -> bool
    decreases v,
{
    match v {
        SpecVdf::Str(_) => true,
        SpecVdf::Obj(es) => keys_distinct(es) && entries_wf(es),
    }
}

/// Every value among the entries is well formed.
pub open spec fn entries_wf(es: Seq<(Seq<char>, SpecVdf)>) -> bool
    decreases es,
{
    if es.len() == 0 {
        true
    } else {
        entries_wf(es.drop_last()) && spec_wf(es.last().1)
    }
}

proof fn lemma_entries_wf_index(es: Seq<(Seq<char>, SpecVdf)>)
    ensures
        entries_wf(es) <==> forall|i: int| 0 <= i < es.len() ==> spec_wf(#[trigger] es[i].1),
    decreases es.len(),
{
    if es.len() > 0 {
        lemma_entries_wf_index(es.drop_last());
        assert forall|i: int| 0 <= i < es.len() - 1 implies es[i] == es.drop_last()[i] by {}
    }
}

/// Writing a key reads back the value written.
pub proof fn lemma_insert_get_same(es: Seq<(Seq<char>, SpecVdf)>, k: Seq<char>, v: SpecVdf)
    ensures
        SpecVdf::Obj(spec_insert(es, k, v)).spec_get(k) == Some(v),
{
    let ins = spec_insert(es, k, v);
    lemma_key_index(es, k);
    lemma_key_index(ins, k);
    match key_index(es, k) {
        Some(i) => {
            assert(ins[i].0 == k);
            if let Some(m) = key_index(ins, k) {
                if m < i {
                    assert(ins[m] == es[m]);
                }
                assert(m == i);
            }
        },
        None => {
            assert(ins[es.len() as int].0 == k);
            if let Some(m) = key_index(ins, k) {
                if m < es.len() {
                    assert(ins[m] == es[m]);
                }
            }
        },
    }
}

/// Writing one key leaves what every other key reads unchanged.
pub proof fn lemma_insert_get_other(
    es: Seq<(Seq<char>, SpecVdf)>,
    k: Seq<char>,
    v: SpecVdf,
    other: Seq<char>,
)
    requires
        other != k,
    ensures
        SpecVdf::Obj(spec_insert(es, k, v)).spec_get(other) == SpecVdf::Obj(es).spec_get(other),
{
    let ins = spec_insert(es, k, v);
    lemma_key_index(es, other);
    lemma_key_index(ins, other);
    lemma_key_index(es, k);
    assert forall|j: int| 0 <= j < es.len() implies ins[j].0 == other <==> es[j].0 == other by {}
    match (key_index(es, other), key_index(ins, other)) {
        (Some(a), Some(b)) => {
            assert(ins[a].0 == other);
            if b < es.len() {
                assert(!(b < a));
                assert(!(a < b));
            } else {
                assert(ins[b].0 == k);
            }
            assert(ins[a].1 == es[a].1);
        },
        (Some(a), None) => {
            assert(ins[a].0 == other);
        },
        (None, Some(b)) => {
            if b < es.len() {
                assert(es[b].0 == other);
            } else {
                assert(ins[b].0 == k);
            }
        },
        (None, None) => {},
    }
}

/// Writing keeps the keys distinct and the values well formed.
proof fn lemma_insert_wf(es: Seq<(Seq<char>, SpecVdf)>, k: Seq<char>, v: SpecVdf)
    requires
        keys_distinct(es),
        entries_wf(es),
        spec_wf(v),
    ensures
        keys_distinct(spec_insert(es, k, v)),
        entries_wf(spec_insert(es, k, v)),
{
    let ins = spec_insert(es, k, v);
    lemma_key_index(es, k);
    lemma_entries_wf_index(es);
    lemma_entries_wf_index(ins);
    match key_index(es, k) {
        Some(i) => {
            assert forall|a: int, b: int| 0 <= a < b < ins.len() implies ins[a].0 != ins[b].0 by {
                assert(ins[a].0 == es[a].0);
                assert(ins[b].0 == es[b].0);
            }
            assert forall|a: int| 0 <= a < ins.len() implies spec_wf(#[trigger] ins[a].1) by {
                if a != i {
                    assert(ins[a] == es[a]);
                }
            }
        },
        None => {
            assert forall|a: int, b: int| 0 <= a < b < ins.len() implies ins[a].0 != ins[b].0 by {
                if b < es.len() {
                    assert(ins[a] == es[a] && ins[b] == es[b]);
                } else {
                    assert(ins[a] == es[a]);
                }
            }
            assert forall|a: int| 0 <= a < ins.len() implies spec_wf(#[trigger] ins[a].1) by {
                if a < es.len() {
                    assert(ins[a] == es[a]);
                }
            }
        },
    }
}

proof fn lemma_parse_value_wf(s: Seq<char>, p: int)
    ensures
        spec_parse_value(s, p) matches Ok((v, _)) ==> spec_wf(v),
    decreases s.len() - p, 1int,
{
    if 0 <= p <= s.len() {
        let q = spec_skip(s, p, false);
        if p <= q < s.len() && s[q] == '{' {
            lemma_members_wf(s, q + 1, Seq::empty());
        }
    }
}

proof fn lemma_members_wf(s: Seq<char>, p: int, acc: Seq<(Seq<char>, SpecVdf)>)
    ensures
        keys_distinct(acc) && entries_wf(acc) ==> (spec_members(s, p, acc) matches Ok((v, _))
            ==> spec_wf(v)),
    decreases s.len() - p, 0int,
{
    if 0 <= p <= s.len() && keys_distinct(acc) && entries_wf(acc) {
        let r = spec_skip(s, p, false);
        if p <= r < s.len() && s[r] == '"' {
            if let Ok((k, r2)) = spec_parse_string(s, r) {
                let r3 = spec_skip(s, r2, false);
                if !(r2 <= r || r3 < r2 || r3 > s.len()) {
                    lemma_parse_value_wf(s, r3);
                    if let Ok((v, r4)) = spec_parse_value(s, r3) {
                        if !(r4 <= r || r4 > s.len()) {
                            lemma_insert_wf(acc, k, v);
                            lemma_members_wf(s, r4, spec_insert(acc, k, v));
                        }
                    }
                }
            }
        }
    }
}

proof fn lemma_root_wf(s: Seq<char>, p: int, acc: Seq<(Seq<char>, SpecVdf)>)
    requires
        keys_distinct(acc),
        entries_wf(acc),
    ensures
        spec_root(s, p, acc) matches Ok(v) ==> spec_wf(v),
    decreases s.len() - p,
{
    if 0 <= p < s.len() {
        let q = spec_skip(s, p, false);
        if p <= q < s.len() {
            if let Ok((k, q2)) = spec_parse_string(s, q) {
                let q3 = spec_skip(s, q2, false);
                lemma_parse_value_wf(s, q3);
                if let Ok((v, q4)) = spec_parse_value(s, q3) {
                    let q5 = spec_skip(s, q4, false);
                    if !(q5 <= q || q5 > s.len()) {
                        lemma_insert_wf(acc, k, v);
                        lemma_root_wf(s, q5, spec_insert(acc, k, v));
                    }
                }
            }
        }
    }
}

/// Every block that parsing yields, at any depth, has pairwise distinct keys: a key written
/// twice in a block is kept once, with its later value.
pub proof fn lemma_parsed_wf(s: Seq<char>)
    ensures
        spec_parse_vdf(s) matches Ok(v) ==> spec_wf(v),
{
    lemma_root_wf(s, spec_skip(s, 0, false), Seq::empty());
}

} // verus!
