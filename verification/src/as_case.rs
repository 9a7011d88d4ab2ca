//! The identifier-casing engine.
//!
//! There are two casing paths. Free text (`Cased`, built through [`AsCase`])
//! is re-cased character by character: an explicit boundary marker or an
//! upper-case character starts a new chunk, and the first character of the
//! text, the first character of a chunk, and every other character each get
//! their own per-rule transform. Canonical identifiers (see `Name`) are kept
//! as lower-case word fragments instead and cased fragment by fragment; the
//! fragment path lives here too, as the spec functions `spec_casify` and
//! `spec_split_fragments`.

use vstd::prelude::*;
use crate::setup::CaseType;

verus! {

/// An explicit word-boundary marker recognised when re-casing free text.
pub const CASE_SEPARATOR: char = '`';

pub open spec fn spec_is_ascii_upper(c: char) -> bool {
    'A' <= c && c <= 'Z'
}

pub open spec fn spec_is_ascii_lower(c: char) -> bool {
    'a' <= c && c <= 'z'
}

/// A fragment separator in canonical-identifier input.
pub open spec fn spec_is_separator(c: char) -> bool {
    c == '_' || c == ' '
}

/// Simple per-character lower-case mapping (ASCII only, not locale aware).
pub open spec fn spec_to_lower(c: char) -> char {
    if spec_is_ascii_upper(c) {
        (c as u8 + 32) as char
    } else {
        c
    }
}

/// Simple per-character upper-case mapping (ASCII only, not locale aware).
pub open spec fn spec_to_upper(c: char) -> char {
    if spec_is_ascii_lower(c) {
        (c as u8 - 32) as char
    } else {
        c
    }
}

pub fn is_ascii_upper(c: char) -> (r: bool)
    ensures
        r == spec_is_ascii_upper(c),
{
    'A' <= c && c <= 'Z'
}

pub fn is_ascii_lower(c: char) -> (r: bool)
    ensures
        r == spec_is_ascii_lower(c),
{
    'a' <= c && c <= 'z'
}

pub fn to_lower(c: char) -> (r: char)
    ensures
        r == spec_to_lower(c),
{
    if 'A' <= c && c <= 'Z' {
        (c as u8 + 32) as char
    } else {
        c
    }
}

pub fn to_upper(c: char) -> (r: char)
    ensures
        r == spec_to_upper(c),
{
    if 'a' <= c && c <= 'z' {
        (c as u8 - 32) as char
    } else {
        c
    }
}

// ---------------------------------------------------------------------------
// The free-text path.
// ---------------------------------------------------------------------------

/// The transform for the very first character of a piece of free text.
pub open spec fn spec_first_char(case_type: CaseType, c: char) -> char {
    match case_type {
        CaseType::FlatCase => spec_to_lower(c),
        CaseType::ScreamingCase => spec_to_upper(c),
        CaseType::CamelCase => spec_to_lower(c),
        CaseType::PascalCase => spec_to_upper(c),
        CaseType::SnakeCase => spec_to_lower(c),
        CaseType::ScreamingSnakeCase => spec_to_upper(c),
    }
}

/// The transform for the first character of a later chunk.
pub open spec fn spec_first_char_in_chunk(case_type: CaseType, c: char) -> char {
    match case_type {
        CaseType::FlatCase => spec_to_lower(c),
        CaseType::ScreamingCase => spec_to_upper(c),
        CaseType::CamelCase => spec_to_upper(c),
        CaseType::PascalCase => spec_to_upper(c),
        CaseType::SnakeCase => spec_to_lower(c),
        CaseType::ScreamingSnakeCase => spec_to_upper(c),
    }
}

/// The transform for every other character.
pub open spec fn spec_default_char(case_type: CaseType, c: char) -> char {
    match case_type {
        CaseType::FlatCase => spec_to_lower(c),
        CaseType::ScreamingCase => spec_to_upper(c),
        CaseType::CamelCase => spec_to_lower(c),
        CaseType::PascalCase => spec_to_lower(c),
        CaseType::SnakeCase => spec_to_lower(c),
        CaseType::ScreamingSnakeCase => spec_to_upper(c),
    }
}

/// One step of free-text re-casing: the boundary marker is dropped and flags
/// a chunk start; an upper-case character also flags one; every other
/// character is emitted under the transform its position selects.
pub open spec fn spec_cased_rec(
    s: Seq<char>,
    case_type: CaseType,
    is_first: bool,
    chunk_pending: bool,
) -> Seq<char>
    decreases s.len(),
{
    if s.len() == 0 {
        seq![]
    } else {
        let c = s[0];
        if c == CASE_SEPARATOR {
            spec_cased_rec(s.drop_first(), case_type, is_first, true)
        } else {
            let in_chunk = chunk_pending || spec_is_ascii_upper(c);
            let t = if is_first {
                spec_first_char(case_type, c)
            } else if in_chunk {
                spec_first_char_in_chunk(case_type, c)
            } else {
                spec_default_char(case_type, c)
            };
            seq![t] + spec_cased_rec(s.drop_first(), case_type, false, false)
        }
    }
}

/// What re-casing a piece of free text under a rule produces.
pub open spec fn spec_cased_text(s: Seq<char>, case_type: CaseType) -> Seq<char> {
    spec_cased_rec(s, case_type, true, false)
}

/// A borrowed piece of free text together with the casing rule to re-case it
/// under.
pub struct Cased<'a> {
    case_type: CaseType,
    source: &'a str,
}

/// Attaches a casing rule to free text, yielding a [`Cased`] value.
pub trait AsCase {
    spec fn spec_text(&self) -> Seq<char>;

    fn as_case<'a>(&'a self, case_type: CaseType) -> (r: Cased<'a>)
        ensures
            r.spec_source() == self.spec_text(),
            r.spec_case() == case_type,
    ;
}

impl AsCase for str {
    open spec fn spec_text(&self) -> Seq<char> {
        self@
    }

    fn as_case<'a>(&'a self, case_type: CaseType) -> (r: Cased<'a>) {
        Cased { case_type, source: self }
    }
}

impl AsCase for String {
    open spec fn spec_text(&self) -> Seq<char> {
        self@
    }

    fn as_case<'a>(&'a self, case_type: CaseType) -> (r: Cased<'a>) {
        Cased { case_type, source: self.as_str() }
    }
}

impl<'a> Cased<'a> {
    pub closed spec fn spec_source(&self) -> Seq<char> {
        self.source@
    }

    pub closed spec fn spec_case(&self) -> CaseType {
        self.case_type
    }

    /// What rendering this value produces.
    pub open spec fn spec_result(&self) -> Seq<char> {
        spec_cased_text(self.spec_source(), self.spec_case())
    }

    pub fn write_first_char(case_type: CaseType, c: char) -> (r: char)
        ensures
            r == spec_first_char(case_type, c),
    {
        match case_type {
            CaseType::FlatCase => to_lower(c),
            CaseType::ScreamingCase => to_upper(c),
            CaseType::CamelCase => to_lower(c),
            CaseType::PascalCase => to_upper(c),
            CaseType::SnakeCase => to_lower(c),
            CaseType::ScreamingSnakeCase => to_upper(c),
        }
    }

    pub fn write_first_char_in_chunk(case_type: CaseType, c: char) -> (r: char)
        ensures
            r == spec_first_char_in_chunk(case_type, c),
    {
        match case_type {
            CaseType::FlatCase => to_lower(c),
            CaseType::ScreamingCase => to_upper(c),
            CaseType::CamelCase => to_upper(c),
            CaseType::PascalCase => to_upper(c),
            CaseType::SnakeCase => to_lower(c),
            CaseType::ScreamingSnakeCase => to_upper(c),
        }
    }

    pub fn write_default_char(case_type: CaseType, c: char) -> (r: char)
        ensures
            r == spec_default_char(case_type, c),
    {
        match case_type {
            CaseType::FlatCase => to_lower(c),
            CaseType::ScreamingCase => to_upper(c),
            CaseType::CamelCase => to_lower(c),
            CaseType::PascalCase => to_lower(c),
            CaseType::SnakeCase => to_lower(c),
            CaseType::ScreamingSnakeCase => to_upper(c),
        }
    }

    /// Re-cases a character sequence under the given rule.
    pub fn casify(chars: &Vec<char>, case_type: CaseType) -> (r: Vec<char>)
        ensures
            r@ == spec_cased_text(chars@, case_type),
    {
        let mut out: Vec<char> = Vec::new();
        let mut is_first = true;
        let mut chunk_pending = false;
        let mut i: usize = 0;
        proof {
            assert(chars@.skip(0) =~= chars@);
            assert(out@ + spec_cased_rec(chars@, case_type, true, false) =~= spec_cased_rec(
                chars@,
                case_type,
                true,
                false,
            ));
        }
        while i < chars.len()
            invariant
                i <= chars@.len(),
                spec_cased_text(chars@, case_type) == out@ + spec_cased_rec(
                    chars@.skip(i as int),
                    case_type,
                    is_first,
                    chunk_pending,
                ),
            decreases chars@.len() - i,
        {
            let c = chars[i];
            proof {
                assert(chars@.skip(i as int)[0] == chars@[i as int]);
                assert(chars@.skip(i as int).drop_first() =~= chars@.skip(i as int + 1));
            }
            if c == CASE_SEPARATOR {
                chunk_pending = true;
            } else {
                let t = if is_first {
                    Cased::write_first_char(case_type, c)
                } else if chunk_pending || is_ascii_upper(c) {
                    Cased::write_first_char_in_chunk(case_type, c)
                } else {
                    Cased::write_default_char(case_type, c)
                };
                out.push(t);
                is_first = false;
                chunk_pending = false;
            }
            i = i + 1;
            proof {
                assert(out@ + spec_cased_rec(
                    chars@.skip(i as int),
                    case_type,
                    is_first,
                    chunk_pending,
                ) =~= spec_cased_text(chars@, case_type));
            }
        }
        proof {
            assert(chars@.skip(i as int) =~= Seq::<char>::empty());
            assert(out@ =~= spec_cased_text(chars@, case_type));
        }
        out
    }

    /// The re-cased text of this value.
    pub fn to_text(&self) -> (r: String)
        ensures
            r@ == self.spec_result(),
    {
        let chars = crate::text::str_to_chars(self.source);
        let out = Cased::casify(&chars, self.case_type);
        crate::text::chars_to_string(&out)
    }
}

// ---------------------------------------------------------------------------
// The canonical-fragment path.
// ---------------------------------------------------------------------------

/// The text put between fragments by a casing rule.
pub open spec fn spec_joiner(case_type: CaseType) -> Seq<char> {
    match case_type {
        CaseType::SnakeCase => seq!['_'],
        CaseType::ScreamingSnakeCase => seq!['_'],
        _ => seq![],
    }
}

/// The uppercase-first transform: capitalises just the first character.
pub open spec fn spec_cap_first(w: Seq<char>) -> Seq<char> {
    if w.len() > 0 {
        seq![spec_to_upper(w[0])] + w.drop_first()
    } else {
        w
    }
}

/// The full-uppercase transform.
pub open spec fn spec_upper_all(w: Seq<char>) -> Seq<char> {
    w.map_values(|c: char| spec_to_upper(c))
}

/// The per-fragment transform a rule applies, depending on whether the
/// fragment is the first of the identifier.
pub open spec fn spec_frag_cased(w: Seq<char>, case_type: CaseType, is_first: bool) -> Seq<
    char,
> {
    match case_type {
        CaseType::FlatCase => w,
        CaseType::ScreamingCase => spec_upper_all(w),
        CaseType::CamelCase => if is_first {
            w
        } else {
            spec_cap_first(w)
        },
        CaseType::PascalCase => spec_cap_first(w),
        CaseType::SnakeCase => w,
        CaseType::ScreamingSnakeCase => spec_upper_all(w),
    }
}

pub open spec fn spec_casify_rest(parts: Seq<Seq<char>>, case_type: CaseType) -> Seq<char>
    decreases parts.len(),
{
    if parts.len() == 0 {
        seq![]
    } else {
        spec_joiner(case_type) + spec_frag_cased(parts[0], case_type, false) + spec_casify_rest(
            parts.drop_first(),
            case_type,
        )
    }
}

/// What casing a canonical fragment sequence under a rule produces: each
/// fragment under its per-fragment transform, joined by the rule's joiner.
pub open spec fn spec_casify(parts: Seq<Seq<char>>, case_type: CaseType) -> Seq<char> {
    if parts.len() == 0 {
        seq![]
    } else {
        spec_frag_cased(parts[0], case_type, true) + spec_casify_rest(
            parts.drop_first(),
            case_type,
        )
    }
}

/// One step of fragment splitting. A separator always ends the current
/// fragment; an upper-case character ends it too unless the previous
/// character was already upper case (so a run of capitals stays one
/// fragment); every kept character is lower-cased.
pub open spec fn spec_split_rec(s: Seq<char>, cur: Seq<char>, prev_upper: bool) -> Seq<
    Seq<char>,
>
    decreases s.len(),
{
    if s.len() == 0 {
        if cur.len() > 0 {
            seq![cur]
        } else {
            seq![]
        }
    } else {
        let c = s[0];
        if spec_is_separator(c) {
            if cur.len() > 0 {
                seq![cur] + spec_split_rec(s.drop_first(), seq![], false)
            } else {
                spec_split_rec(s.drop_first(), seq![], false)
            }
        } else if spec_is_ascii_upper(c) && !prev_upper {
            if cur.len() > 0 {
                seq![cur] + spec_split_rec(s.drop_first(), seq![spec_to_lower(c)], true)
            } else {
                spec_split_rec(s.drop_first(), seq![spec_to_lower(c)], true)
            }
        } else {
            spec_split_rec(s.drop_first(), cur.push(spec_to_lower(c)), spec_is_ascii_upper(c))
        }
    }
}

/// The fragments an input splits into, before the empty-input fallback.
pub open spec fn spec_split_fragments(s: Seq<char>) -> Seq<Seq<char>> {
    spec_split_rec(s, seq![], false)
}

/// The fixed fragment pair substituted when splitting yields nothing, so that
/// an identifier never renders as empty text.
pub open spec fn spec_placeholder() -> Seq<Seq<char>> {
    seq![seq!['i', 'n', 'v', 'a', 'l', 'i', 'd'], seq!['n', 'a', 'm', 'e']]
}

/// The canonical fragments of an identifier input: its split fragments, or
/// the placeholder pair if there are none.
pub open spec fn spec_canonical_fragments(s: Seq<char>) -> Seq<Seq<char>> {
    if spec_split_fragments(s).len() == 0 {
        spec_placeholder()
    } else {
        spec_split_fragments(s)
    }
}


proof fn lemma_push_front_assoc<T>(a: Seq<T>, x: T, r: Seq<T>)
    ensures
        a.push(x) + r =~= a + (seq![x] + r),
{
}

/// Splits identifier input into canonical lower-case fragments, substituting
/// the placeholder pair when nothing remains.
pub fn split_fragments(chars: &Vec<char>) -> (parts: Vec<Vec<char>>)
    ensures
        crate::text::parts_view(parts@) == spec_canonical_fragments(chars@),
        parts@.len() > 0,
{
    let mut acc: Vec<Vec<char>> = Vec::new();
    let mut cur: Vec<char> = Vec::new();
    let mut prev_upper = false;
    let mut i: usize = 0;
    proof {
        assert(chars@.skip(0) =~= chars@);
        assert(crate::text::parts_view(acc@) + spec_split_rec(chars@, seq![], false)
            =~= spec_split_rec(chars@, seq![], false));
    }
    while i < chars.len()
        invariant
            i <= chars@.len(),
            spec_split_fragments(chars@) == crate::text::parts_view(acc@) + spec_split_rec(
                chars@.skip(i as int),
                cur@,
                prev_upper,
            ),
        decreases chars@.len() - i,
    {
        let c = chars[i];
        proof {
            assert(chars@.skip(i as int)[0] == chars@[i as int]);
            assert(chars@.skip(i as int).drop_first() =~= chars@.skip(i as int + 1));
        }
        let ghost acc0 = acc@;
        let ghost cur0 = cur@;
        let ghost acc0_prev = prev_upper;
        if c == '_' || c == ' ' {
            if cur.len() > 0 {
                acc.push(cur);
                cur = Vec::new();
                proof {
                    assert(crate::text::parts_view(acc@) =~= crate::text::parts_view(acc0).push(
                        cur0,
                    ));
                    lemma_push_front_assoc(
                        crate::text::parts_view(acc0),
                        cur0,
                        spec_split_rec(chars@.skip(i as int + 1), seq![], false),
                    );
                }
            }
            prev_upper = false;
        } else if is_ascii_upper(c) && !prev_upper {
            if cur.len() > 0 {
                acc.push(cur);
                cur = Vec::new();
                proof {
                    assert(crate::text::parts_view(acc@) =~= crate::text::parts_view(acc0).push(
                        cur0,
                    ));
                    lemma_push_front_assoc(
                        crate::text::parts_view(acc0),
                        cur0,
                        spec_split_rec(
                            chars@.skip(i as int + 1),
                            seq![spec_to_lower(chars@[i as int])],
                            true,
                        ),
                    );
                }
            }
            cur.push(to_lower(c));
            proof {
                assert(cur@ =~= seq![spec_to_lower(chars@[i as int])]);
            }
            prev_upper = true;
        } else {
            prev_upper = is_ascii_upper(c);
            cur.push(to_lower(c));
        }
        proof {
            let c0 = chars@[i as int];
            let rest0 = chars@.skip(i as int);
            let rest1 = chars@.skip(i as int + 1);
            assert(rest0.len() > 0);
            if cur0.len() == 0 {
                assert(cur0 =~= seq![]);
            }
            if cur@.len() == 0 {
                assert(cur@ =~= seq![]);
            }
            if spec_is_separator(c0) {
                assert(spec_split_rec(rest0, cur0, acc0_prev) == (if cur0.len() > 0 {
                    seq![cur0] + spec_split_rec(rest1, seq![], false)
                } else {
                    spec_split_rec(rest1, seq![], false)
                }));
                assert(crate::text::parts_view(acc@) + spec_split_rec(rest1, cur@, prev_upper)
                    =~= spec_split_fragments(chars@));
            } else if spec_is_ascii_upper(c0) && !acc0_prev {
                assert(spec_split_rec(rest0, cur0, acc0_prev) == (if cur0.len() > 0 {
                    seq![cur0] + spec_split_rec(rest1, seq![spec_to_lower(c0)], true)
                } else {
                    spec_split_rec(rest1, seq![spec_to_lower(c0)], true)
                }));
                assert(cur@ =~= seq![spec_to_lower(c0)]);
                assert(crate::text::parts_view(acc@) + spec_split_rec(rest1, cur@, prev_upper)
                    =~= spec_split_fragments(chars@));
            } else {
                assert(spec_split_rec(rest0, cur0, acc0_prev) == spec_split_rec(
                    rest1,
                    cur0.push(spec_to_lower(c0)),
                    spec_is_ascii_upper(c0),
                ));
                assert(crate::text::parts_view(acc@) + spec_split_rec(rest1, cur@, prev_upper)
                    =~= spec_split_fragments(chars@));
            }
        }
        i = i + 1;
    }
    proof {
        assert(chars@.skip(i as int) =~= Seq::<char>::empty());
    }
    let ghost acc0 = acc@;
    let ghost cur0 = cur@;
    if cur.len() > 0 {
        acc.push(cur);
        proof {
            assert(crate::text::parts_view(acc@) =~= crate::text::parts_view(acc0).push(cur0));
            assert(crate::text::parts_view(acc@) =~= spec_split_fragments(chars@));
        }
    } else {
        proof {
            assert(crate::text::parts_view(acc@) =~= spec_split_fragments(chars@));
        }
    }
    if acc.len() == 0 {
        let mut w1: Vec<char> = Vec::new();
        w1.push('i');
        w1.push('n');
        w1.push('v');
        w1.push('a');
        w1.push('l');
        w1.push('i');
        w1.push('d');
        let mut w2: Vec<char> = Vec::new();
        w2.push('n');
        w2.push('a');
        w2.push('m');
        w2.push('e');
        proof {
            assert(w1@ =~= spec_placeholder()[0]);
            assert(w2@ =~= spec_placeholder()[1]);
        }
        acc.push(w1);
        acc.push(w2);
        proof {
            assert(crate::text::parts_view(acc@) =~= spec_placeholder());
        }
    }
    acc
}

// ---------------------------------------------------------------------------
// The casing round trip.
// ---------------------------------------------------------------------------

/// A canonical word fragment for the round-trip law: non-empty, ASCII
/// lower-case letters only.
pub open spec fn spec_is_lower_word(w: Seq<char>) -> bool {
    &&& w.len() > 0
    &&& forall|i: int| 0 <= i < w.len() ==> spec_is_ascii_lower(#[trigger] w[i])
}

pub open spec fn spec_all_lower_words(ws: Seq<Seq<char>>) -> bool {
    forall|i: int| 0 <= i < ws.len() ==> spec_is_lower_word(#[trigger] ws[i])
}

/// The pending fragment, emitted only if it holds text.
pub open spec fn spec_emit(cur: Seq<char>) -> Seq<Seq<char>> {
    if cur.len() > 0 {
        seq![cur]
    } else {
        seq![]
    }
}

/// The concatenation of all fragments.
pub open spec fn spec_flatten(ws: Seq<Seq<char>>) -> Seq<char>
    decreases ws.len(),
{
    if ws.len() == 0 {
        seq![]
    } else {
        ws[0] + spec_flatten(ws.drop_first())
    }
}

/// Splitting walks straight through a run of lower-case letters, keeping
/// them in the pending fragment.
proof fn lemma_split_consume_lower(w: Seq<char>, t: Seq<char>, cur: Seq<char>, prev_upper: bool)
    requires
        spec_is_lower_word(w),
    ensures
        spec_split_rec(w + t, cur, prev_upper) == spec_split_rec(t, cur + w, false),
    decreases w.len(),
{
    let s = w + t;
    let c = w[0];
    assert(s[0] == c);
    assert(spec_is_ascii_lower(c));
    assert(!spec_is_separator(c));
    assert(!spec_is_ascii_upper(c));
    assert(spec_to_lower(c) == c);
    if w.len() == 1 {
        assert(s.drop_first() =~= t);
        assert(cur.push(c) =~= cur + w);
    } else {
        assert(s.drop_first() =~= w.drop_first() + t);
        assert(spec_is_lower_word(w.drop_first()));
        lemma_split_consume_lower(w.drop_first(), t, cur.push(c), false);
        assert(cur.push(c) + w.drop_first() =~= cur + w);
    }
}

/// Splitting walks straight through the upper-cased image of a word when a
/// capital run is already open, lowering each letter into the pending
/// fragment.
proof fn lemma_split_consume_upper(w: Seq<char>, t: Seq<char>, cur: Seq<char>)
    requires
        spec_is_lower_word(w),
    ensures
        spec_split_rec(spec_upper_all(w) + t, cur, true) == spec_split_rec(t, cur + w, true),
    decreases w.len(),
{
    let s = spec_upper_all(w) + t;
    let c = w[0];
    let u = spec_to_upper(c);
    assert(spec_upper_all(w)[0] == u);
    assert(s[0] == u);
    assert(spec_is_ascii_lower(c));
    assert(spec_is_ascii_upper(u));
    assert(!spec_is_separator(u));
    assert(spec_to_lower(u) == c);
    if w.len() == 1 {
        assert(spec_upper_all(w).len() == 1);
        assert(s.drop_first() =~= t);
        assert(cur.push(c) =~= cur + w);
    } else {
        assert(spec_upper_all(w).drop_first() =~= spec_upper_all(w.drop_first()));
        assert(s.drop_first() =~= spec_upper_all(w.drop_first()) + t);
        assert(spec_is_lower_word(w.drop_first()));
        lemma_split_consume_upper(w.drop_first(), t, cur.push(c));
        assert(cur.push(c) + w.drop_first() =~= cur + w);
    }
}

/// An upper-cased word starting with no pending fragment and no open run
/// opens a fresh fragment and leaves the run open.
proof fn lemma_split_open_upper(w: Seq<char>, t: Seq<char>)
    requires
        spec_is_lower_word(w),
    ensures
        spec_split_rec(spec_upper_all(w) + t, seq![], false) == spec_split_rec(t, w, true),
{
    let s = spec_upper_all(w) + t;
    let c = w[0];
    let u = spec_to_upper(c);
    assert(spec_upper_all(w)[0] == u);
    assert(s[0] == u);
    assert(spec_is_ascii_upper(u));
    assert(!spec_is_separator(u));
    assert(spec_to_lower(u) == c);
    if w.len() == 1 {
        assert(spec_upper_all(w).len() == 1);
        assert(s.drop_first() =~= t);
        assert(seq![c] =~= w);
    } else {
        assert(spec_upper_all(w).drop_first() =~= spec_upper_all(w.drop_first()));
        assert(s.drop_first() =~= spec_upper_all(w.drop_first()) + t);
        assert(spec_is_lower_word(w.drop_first()));
        lemma_split_consume_upper(w.drop_first(), t, seq![c]);
        assert(seq![c] + w.drop_first() =~= w);
    }
}

/// A capitalised word after closed text ends the pending fragment and opens
/// a fresh one; the run stays open only when the word was a single letter.
proof fn lemma_split_cap_first(w: Seq<char>, t: Seq<char>, cur: Seq<char>)
    requires
        spec_is_lower_word(w),
    ensures
        w.len() >= 2 ==> spec_split_rec(spec_cap_first(w) + t, cur, false) == spec_emit(cur)
            + spec_split_rec(t, w, false),
        w.len() == 1 ==> spec_split_rec(spec_cap_first(w) + t, cur, false) == spec_emit(cur)
            + spec_split_rec(t, w, true),
{
    let s = spec_cap_first(w) + t;
    let c = w[0];
    let u = spec_to_upper(c);
    assert(spec_cap_first(w)[0] == u);
    assert(s[0] == u);
    assert(spec_is_ascii_lower(c));
    assert(spec_is_ascii_upper(u));
    assert(!spec_is_separator(u));
    assert(spec_to_lower(u) == c);
    if w.len() == 1 {
        assert(spec_cap_first(w).len() == 1);
        assert(s.drop_first() =~= t);
        assert(seq![c] =~= w);
        if cur.len() > 0 {
            assert(spec_split_rec(s, cur, false) == seq![cur] + spec_split_rec(t, w, true));
        } else {
            assert(spec_split_rec(s, cur, false) == spec_split_rec(t, w, true));
            assert(spec_emit(cur) + spec_split_rec(t, w, true) =~= spec_split_rec(t, w, true));
        }
    } else {
        assert(spec_cap_first(w).drop_first() =~= w.drop_first());
        assert(s.drop_first() =~= w.drop_first() + t);
        assert(spec_is_lower_word(w.drop_first()));
        lemma_split_consume_lower(w.drop_first(), t, seq![c], true);
        assert(seq![c] + w.drop_first() =~= w);
        if cur.len() > 0 {
            assert(spec_split_rec(s, cur, false) == seq![cur] + spec_split_rec(t, w, false));
        } else {
            assert(spec_split_rec(s, cur, false) == spec_split_rec(t, w, false));
            assert(spec_emit(cur) + spec_split_rec(t, w, false) =~= spec_split_rec(t, w, false));
        }
    }
}

/// Splitting the underscore-joined tail of a snake-cased or screaming-snake
/// cased identifier recovers its fragments, whatever run state precedes it.
proof fn lemma_split_rest_snake(ws: Seq<Seq<char>>, cur: Seq<char>, prev_upper: bool, rule: CaseType)
    requires
        spec_all_lower_words(ws),
        rule == CaseType::SnakeCase || rule == CaseType::ScreamingSnakeCase,
    ensures
        spec_split_rec(spec_casify_rest(ws, rule), cur, prev_upper) == spec_emit(cur) + ws,
    decreases ws.len(),
{
    if ws.len() == 0 {
        assert(spec_casify_rest(ws, rule).len() == 0);
        assert(spec_emit(cur) + ws =~= spec_emit(cur));
    } else {
        let w0 = ws[0];
        assert(spec_is_lower_word(w0));
        let frag = spec_frag_cased(w0, rule, false);
        let tail = spec_casify_rest(ws.drop_first(), rule);
        let s = spec_casify_rest(ws, rule);
        assert(s == seq!['_'] + frag + tail);
        assert(s[0] == '_');
        assert(spec_is_separator('_'));
        assert(s.drop_first() =~= frag + tail);
        assert(spec_all_lower_words(ws.drop_first()));
        lemma_split_rest_snake(ws.drop_first(), w0, if rule == CaseType::SnakeCase {
            false
        } else {
            true
        }, rule);
        if rule == CaseType::SnakeCase {
            assert(frag == w0);
            lemma_split_consume_lower(w0, tail, seq![], false);
            assert(seq![] + w0 =~= w0);
            assert(spec_split_rec(frag + tail, seq![], false) == spec_split_rec(tail, w0, false));
        } else {
            assert(frag == spec_upper_all(w0));
            lemma_split_open_upper(w0, tail);
            assert(spec_split_rec(frag + tail, seq![], false) == spec_split_rec(tail, w0, true));
        }
        assert(spec_emit(w0) =~= seq![w0]);
        assert(spec_emit(cur) + ws =~= spec_emit(cur) + (seq![w0] + ws.drop_first()));
        if cur.len() > 0 {
            assert(spec_split_rec(s, cur, prev_upper) == seq![cur] + (seq![w0]
                + ws.drop_first()));
            assert(seq![cur] + (seq![w0] + ws.drop_first()) =~= spec_emit(cur) + ws);
        } else {
            assert(spec_split_rec(s, cur, prev_upper) == seq![w0] + ws.drop_first());
            assert(seq![w0] + ws.drop_first() =~= spec_emit(cur) + ws);
        }
    }
}

/// Splitting the capitalised tail of a camel-cased or Pascal-cased
/// identifier recovers its fragments, provided every fragment that another
/// fragment follows has at least two letters (a lone capital letter would
/// fuse with the next fragment's capital into one run).
proof fn lemma_split_rest_cap(ws: Seq<Seq<char>>, cur: Seq<char>, rule: CaseType)
    requires
        spec_all_lower_words(ws),
        rule == CaseType::CamelCase || rule == CaseType::PascalCase,
        forall|i: int| 0 <= i < ws.len() - 1 ==> (#[trigger] ws[i]).len() >= 2,
    ensures
        spec_split_rec(spec_casify_rest(ws, rule), cur, false) == spec_emit(cur) + ws,
    decreases ws.len(),
{
    if ws.len() == 0 {
        assert(spec_casify_rest(ws, rule).len() == 0);
        assert(spec_emit(cur) + ws =~= spec_emit(cur));
    } else {
        let w0 = ws[0];
        assert(spec_is_lower_word(w0));
        let frag = spec_frag_cased(w0, rule, false);
        assert(frag == spec_cap_first(w0));
        let tail = spec_casify_rest(ws.drop_first(), rule);
        let s = spec_casify_rest(ws, rule);
        assert(s =~= spec_cap_first(w0) + tail);
        lemma_split_cap_first(w0, tail, cur);
        if ws.len() == 1 {
            assert(tail.len() == 0);
            if w0.len() == 1 {
                assert(spec_split_rec(tail, w0, true) == seq![w0]);
            } else {
                assert(spec_split_rec(tail, w0, false) == seq![w0]);
            }
            assert(spec_split_rec(s, cur, false) == spec_emit(cur) + seq![w0]);
            assert(spec_emit(cur) + seq![w0] =~= spec_emit(cur) + ws);
        } else {
            assert(ws[0].len() >= 2);
            assert(spec_all_lower_words(ws.drop_first()));
            assert(forall|i: int|
                0 <= i < ws.drop_first().len() - 1 ==> (#[trigger] ws.drop_first()[i]).len()
                    >= 2);
            lemma_split_rest_cap(ws.drop_first(), w0, rule);
            assert(spec_split_rec(s, cur, false) == spec_emit(cur) + (spec_emit(w0)
                + ws.drop_first()));
            assert(spec_emit(w0) =~= seq![w0]);
            assert(spec_emit(cur) + (spec_emit(w0) + ws.drop_first()) =~= spec_emit(cur) + ws);
        }
    }
}

/// Splitting the tail of a flat-cased identifier folds every remaining
/// fragment into the pending one.
proof fn lemma_split_rest_flat(ws: Seq<Seq<char>>, cur: Seq<char>, prev_upper: bool)
    requires
        spec_all_lower_words(ws),
    ensures
        spec_split_rec(spec_casify_rest(ws, CaseType::FlatCase), cur, prev_upper) == spec_emit(
            cur + spec_flatten(ws),
        ),
    decreases ws.len(),
{
    if ws.len() == 0 {
        assert(spec_casify_rest(ws, CaseType::FlatCase).len() == 0);
        assert(cur + spec_flatten(ws) =~= cur);
    } else {
        let w0 = ws[0];
        assert(spec_is_lower_word(w0));
        let tail = spec_casify_rest(ws.drop_first(), CaseType::FlatCase);
        let s = spec_casify_rest(ws, CaseType::FlatCase);
        assert(s =~= w0 + tail);
        lemma_split_consume_lower(w0, tail, cur, prev_upper);
        assert(spec_all_lower_words(ws.drop_first()));
        lemma_split_rest_flat(ws.drop_first(), cur + w0, false);
        assert((cur + w0) + spec_flatten(ws.drop_first()) =~= cur + spec_flatten(ws));
    }
}

/// Splitting the tail of a screaming-cased identifier extends the open
/// capital run, folding every remaining fragment into the pending one.
proof fn lemma_split_rest_screaming(ws: Seq<Seq<char>>, cur: Seq<char>)
    requires
        spec_all_lower_words(ws),
    ensures
        spec_split_rec(spec_casify_rest(ws, CaseType::ScreamingCase), cur, true) == spec_emit(
            cur + spec_flatten(ws),
        ),
    decreases ws.len(),
{
    if ws.len() == 0 {
        assert(spec_casify_rest(ws, CaseType::ScreamingCase).len() == 0);
        assert(cur + spec_flatten(ws) =~= cur);
    } else {
        let w0 = ws[0];
        assert(spec_is_lower_word(w0));
        let tail = spec_casify_rest(ws.drop_first(), CaseType::ScreamingCase);
        let s = spec_casify_rest(ws, CaseType::ScreamingCase);
        assert(s =~= spec_upper_all(w0) + tail);
        lemma_split_consume_upper(w0, tail, cur);
        assert(spec_all_lower_words(ws.drop_first()));
        lemma_split_rest_screaming(ws.drop_first(), cur + w0);
        assert((cur + w0) + spec_flatten(ws.drop_first()) =~= cur + spec_flatten(ws));
    }
}

/// Flat casing concatenates the fragments unchanged.
proof fn lemma_casify_flat_is_flatten(ws: Seq<Seq<char>>)
    ensures
        spec_casify_rest(ws, CaseType::FlatCase) == spec_flatten(ws),
        ws.len() > 0 ==> spec_casify(ws, CaseType::FlatCase) == spec_flatten(ws),
    decreases ws.len(),
{
    if ws.len() == 0 {
        assert(spec_casify_rest(ws, CaseType::FlatCase) =~= spec_flatten(ws));
    } else {
        lemma_casify_flat_is_flatten(ws.drop_first());
        assert(spec_casify_rest(ws, CaseType::FlatCase) =~= spec_flatten(ws));
        assert(spec_casify(ws, CaseType::FlatCase) =~= spec_flatten(ws));
    }
}

/// The full-uppercase transform distributes over concatenation.
proof fn lemma_upper_all_add(a: Seq<char>, b: Seq<char>)
    ensures
        spec_upper_all(a + b) == spec_upper_all(a) + spec_upper_all(b),
{
    assert(spec_upper_all(a + b) =~= spec_upper_all(a) + spec_upper_all(b));
}

/// Screaming casing upper-cases the concatenation of the fragments.
proof fn lemma_casify_screaming_is_upper_flatten(ws: Seq<Seq<char>>)
    ensures
        spec_casify_rest(ws, CaseType::ScreamingCase) == spec_upper_all(spec_flatten(ws)),
        ws.len() > 0 ==> spec_casify(ws, CaseType::ScreamingCase) == spec_upper_all(
            spec_flatten(ws),
        ),
    decreases ws.len(),
{
    if ws.len() == 0 {
        assert(spec_casify_rest(ws, CaseType::ScreamingCase) =~= spec_upper_all(
            spec_flatten(ws),
        ));
    } else {
        lemma_casify_screaming_is_upper_flatten(ws.drop_first());
        lemma_upper_all_add(ws[0], spec_flatten(ws.drop_first()));
        assert(spec_casify_rest(ws, CaseType::ScreamingCase) =~= spec_upper_all(
            spec_flatten(ws),
        ));
        assert(spec_casify(ws, CaseType::ScreamingCase) =~= spec_upper_all(spec_flatten(ws)));
    }
}

/// What splitting a cased identifier yields: for the rules whose text keeps
/// the fragment boundaries visible, the original fragments; for flat and
/// screaming casing, which erase the boundaries, the single concatenated
/// fragment.
proof fn lemma_split_of_casified(ws: Seq<Seq<char>>, rule: CaseType)
    requires
        ws.len() > 0,
        spec_all_lower_words(ws),
        rule == CaseType::CamelCase ==> forall|i: int|
            1 <= i < ws.len() - 1 ==> (#[trigger] ws[i]).len() >= 2,
        rule == CaseType::PascalCase ==> forall|i: int|
            0 <= i < ws.len() - 1 ==> (#[trigger] ws[i]).len() >= 2,
    ensures
        (rule == CaseType::SnakeCase || rule == CaseType::ScreamingSnakeCase || rule
            == CaseType::CamelCase || rule == CaseType::PascalCase)
            ==> spec_split_fragments(spec_casify(ws, rule)) == ws,
        (rule == CaseType::FlatCase || rule == CaseType::ScreamingCase)
            ==> spec_split_fragments(spec_casify(ws, rule)) == seq![spec_flatten(ws)],
{
    let w0 = ws[0];
    assert(spec_is_lower_word(w0));
    let rest = spec_casify_rest(ws.drop_first(), rule);
    assert(spec_all_lower_words(ws.drop_first()));
    match rule {
        CaseType::SnakeCase => {
            assert(spec_casify(ws, rule) == w0 + rest);
            lemma_split_consume_lower(w0, rest, seq![], false);
            assert(seq![] + w0 =~= w0);
            lemma_split_rest_snake(ws.drop_first(), w0, false, rule);
            assert(spec_emit(w0) + ws.drop_first() =~= ws);
        },
        CaseType::ScreamingSnakeCase => {
            assert(spec_casify(ws, rule) == spec_upper_all(w0) + rest);
            lemma_split_open_upper(w0, rest);
            lemma_split_rest_snake(ws.drop_first(), w0, true, rule);
            assert(spec_emit(w0) + ws.drop_first() =~= ws);
        },
        CaseType::CamelCase => {
            assert(spec_casify(ws, rule) == w0 + rest);
            lemma_split_consume_lower(w0, rest, seq![], false);
            assert(seq![] + w0 =~= w0);
            assert(forall|i: int|
                0 <= i < ws.drop_first().len() - 1 ==> (#[trigger] ws.drop_first()[i]).len()
                    >= 2);
            lemma_split_rest_cap(ws.drop_first(), w0, rule);
            assert(spec_emit(w0) + ws.drop_first() =~= ws);
        },
        CaseType::PascalCase => {
            assert(spec_casify(ws, rule) =~= spec_casify_rest(ws, rule));
            lemma_split_rest_cap(ws, seq![], rule);
            assert(spec_emit(seq![]) + ws =~= ws);
        },
        CaseType::FlatCase => {
            assert(spec_casify(ws, rule) == w0 + rest);
            lemma_split_consume_lower(w0, rest, seq![], false);
            assert(seq![] + w0 =~= w0);
            lemma_split_rest_flat(ws.drop_first(), w0, false);
            assert(w0 + spec_flatten(ws.drop_first()) == spec_flatten(ws));
            assert(spec_flatten(ws).len() > 0);
            assert(spec_emit(spec_flatten(ws)) =~= seq![spec_flatten(ws)]);
        },
        CaseType::ScreamingCase => {
            assert(spec_casify(ws, rule) == spec_upper_all(w0) + rest);
            lemma_split_open_upper(w0, rest);
            lemma_split_rest_screaming(ws.drop_first(), w0);
            assert(w0 + spec_flatten(ws.drop_first()) == spec_flatten(ws));
            assert(spec_flatten(ws).len() > 0);
            assert(spec_emit(spec_flatten(ws)) =~= seq![spec_flatten(ws)]);
        },
    }
}

/// The casing round trip: canonicalising already-cased text and re-casing it
/// under the same rule reproduces the same text, for every casing rule and
/// every non-empty sequence of non-empty lower-case letter fragments — with
/// one proviso for the capitalising rules: a fragment that another fragment
/// follows must have at least two letters there, since a lone capital fuses
/// with the following capital into one fragment when re-split.
pub proof fn lemma_casify_round_trip(words: Seq<Seq<char>>, rule: CaseType)
    requires
        words.len() > 0,
        spec_all_lower_words(words),
        rule == CaseType::CamelCase ==> forall|i: int|
            1 <= i < words.len() - 1 ==> (#[trigger] words[i]).len() >= 2,
        rule == CaseType::PascalCase ==> forall|i: int|
            0 <= i < words.len() - 1 ==> (#[trigger] words[i]).len() >= 2,
    ensures
        spec_casify(spec_canonical_fragments(spec_casify(words, rule)), rule) == spec_casify(
            words,
            rule,
        ),
{
    lemma_split_of_casified(words, rule);
    match rule {
        CaseType::FlatCase => {
            let f = spec_flatten(words);
            assert(spec_canonical_fragments(spec_casify(words, rule)) == seq![f]);
            lemma_casify_flat_is_flatten(words);
            assert(seq![f].drop_first() =~= Seq::<Seq<char>>::empty());
            assert(spec_casify(seq![f], rule) =~= f);
        },
        CaseType::ScreamingCase => {
            let f = spec_flatten(words);
            assert(spec_canonical_fragments(spec_casify(words, rule)) == seq![f]);
            lemma_casify_screaming_is_upper_flatten(words);
            assert(seq![f].drop_first() =~= Seq::<Seq<char>>::empty());
            assert(spec_casify(seq![f], rule) =~= spec_upper_all(f));
        },
        _ => {
            assert(spec_canonical_fragments(spec_casify(words, rule)) == words);
        },
    }
}

/// On closed lower-case text, free-text re-casing applies the default
/// transform to every character: identity, except the upper-casing rules.
proof fn lemma_cased_rec_lower(s: Seq<char>, rule: CaseType)
    requires
        forall|i: int| 0 <= i < s.len() ==> spec_is_ascii_lower(#[trigger] s[i]),
    ensures
        spec_cased_rec(s, rule, false, false) == (if rule == CaseType::ScreamingCase || rule
            == CaseType::ScreamingSnakeCase {
            spec_upper_all(s)
        } else {
            s
        }),
    decreases s.len(),
{
    if s.len() == 0 {
        assert(spec_upper_all(s) =~= s);
    } else {
        let c = s[0];
        assert(spec_is_ascii_lower(c));
        assert(c != CASE_SEPARATOR);
        assert(!spec_is_ascii_upper(c));
        assert(forall|i: int|
            0 <= i < s.drop_first().len() ==> spec_is_ascii_lower(#[trigger] s.drop_first()[i]));
        lemma_cased_rec_lower(s.drop_first(), rule);
        if rule == CaseType::ScreamingCase || rule == CaseType::ScreamingSnakeCase {
            assert(spec_default_char(rule, c) == spec_to_upper(c));
            assert(seq![spec_to_upper(c)] + spec_upper_all(s.drop_first()) =~= spec_upper_all(s));
        } else {
            assert(spec_default_char(rule, c) == spec_to_lower(c));
            assert(spec_to_lower(c) == c);
            assert(seq![c] + s.drop_first() =~= s);
        }
    }
}

/// The two casing paths agree on input without boundary hints: on a single
/// non-empty lower-case word, re-casing the free text and casing the
/// canonical fragments produce the same text, under every rule.
pub proof fn lemma_casing_paths_agree(w: Seq<char>, rule: CaseType)
    requires
        spec_is_lower_word(w),
    ensures
        spec_cased_text(w, rule) == spec_casify(spec_canonical_fragments(w), rule),
{
    lemma_split_consume_lower(w, seq![], seq![], false);
    assert(w + Seq::<char>::empty() =~= w);
    assert(seq![] + w =~= w);
    assert(spec_split_rec(Seq::<char>::empty(), w, false) == seq![w]);
    assert(spec_canonical_fragments(w) == seq![w]);
    assert(seq![w].drop_first() =~= Seq::<Seq<char>>::empty());
    let frag = spec_frag_cased(w, rule, true);
    assert(spec_casify(seq![w], rule) =~= frag);
    let c = w[0];
    assert(spec_is_ascii_lower(c));
    assert(c != CASE_SEPARATOR);
    assert(!spec_is_ascii_upper(c));
    assert(forall|i: int|
        0 <= i < w.drop_first().len() ==> spec_is_ascii_lower(#[trigger] w.drop_first()[i]));
    lemma_cased_rec_lower(w.drop_first(), rule);
    match rule {
        CaseType::FlatCase => {
            assert(spec_first_char(rule, c) == c);
            assert(spec_cased_text(w, rule) =~= w);
        },
        CaseType::CamelCase => {
            assert(spec_first_char(rule, c) == c);
            assert(spec_cased_text(w, rule) =~= w);
        },
        CaseType::SnakeCase => {
            assert(spec_first_char(rule, c) == c);
            assert(spec_cased_text(w, rule) =~= w);
        },
        CaseType::PascalCase => {
            assert(spec_first_char(rule, c) == spec_to_upper(c));
            assert(spec_cased_text(w, rule) =~= spec_cap_first(w));
        },
        CaseType::ScreamingCase => {
            assert(spec_first_char(rule, c) == spec_to_upper(c));
            assert(spec_cased_text(w, rule) =~= spec_upper_all(w));
        },
        CaseType::ScreamingSnakeCase => {
            assert(spec_first_char(rule, c) == spec_to_upper(c));
            assert(spec_cased_text(w, rule) =~= spec_upper_all(w));
        },
    }
}

} // verus!
