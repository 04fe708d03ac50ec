//! Identifier case conversion between snake_case (database column names) and
//! camelCase (API keys), with the round-trip law for camelCase identifiers.
//!
//! The conversions act on ASCII letters: an uppercase ASCII letter marks a
//! word boundary when snake-casing, and an underscore marks one when
//! camel-casing. Characters outside the ASCII letters pass through unchanged.

use vstd::prelude::*;

use crate::strutil::{chars_to_string, str_chars};

verus! {

pub open spec fn is_upper(c: char) -> bool {
    'A' <= c && c <= 'Z'
}

pub open spec fn is_lower(c: char) -> bool {
    'a' <= c && c <= 'z'
}

/// The lowercase form of an uppercase ASCII letter; other characters unchanged.
pub open spec fn lower_char(c: char) -> char {
    if is_upper(c) {
        (((c as u32) + 32) as u8) as char
    } else {
        c
    }
}

/// The uppercase form of a lowercase ASCII letter; other characters unchanged.
pub open spec fn upper_char(c: char) -> char {
    if is_lower(c) {
        (((c as u32) - 32) as u8) as char
    } else {
        c
    }
}

/// snake_case image of `s`; `first` is true while no character has been
/// emitted yet (no underscore is inserted before the first character).
pub open spec fn snake_rec(s: Seq<char>, first: bool) -> Seq<char>
    decreases s.len(),
{
    if s.len() == 0 {
        Seq::empty()
    } else {
        let c = s[0];
        let rest = snake_rec(s.drop_first(), false);
        if is_upper(c) {
            if first {
                seq![lower_char(c)] + rest
            } else {
                seq!['_', lower_char(c)] + rest
            }
        } else {
            seq![c] + rest
        }
    }
}

/// The snake_case form of an identifier: each uppercase ASCII letter is
/// lowered, and preceded by an underscore unless it starts the identifier.
pub open spec fn snake_of(s: Seq<char>) -> Seq<char> {
    snake_rec(s, true)
}

/// camelCase image of `s`; `cap` is true when the previous character was an
/// underscore, so the next character is uppercased.
pub open spec fn camel_rec(s: Seq<char>, cap: bool) -> Seq<char>
    decreases s.len(),
{
    if s.len() == 0 {
        Seq::empty()
    } else {
        let c = s[0];
        if c == '_' {
            camel_rec(s.drop_first(), true)
        } else if cap {
            seq![upper_char(c)] + camel_rec(s.drop_first(), false)
        } else {
            seq![c] + camel_rec(s.drop_first(), false)
        }
    }
}

/// The camelCase form of an identifier: underscores are removed and the
/// character after each underscore is uppercased.
pub open spec fn camel_of(s: Seq<char>) -> Seq<char> {
    camel_rec(s, false)
}

fn lower_exec(c: char) -> (r: char)
    ensures
        r == lower_char(c),
{
    let u = c as u32;
    if 65 <= u && u <= 90 {
        ((u + 32) as u8) as char
    } else {
        c
    }
}

fn upper_exec(c: char) -> (r: char)
    ensures
        r == upper_char(c),
{
    let u = c as u32;
    if 97 <= u && u <= 122 {
        ((u - 32) as u8) as char
    } else {
        c
    }
}

proof fn lemma_snake_rec_step(s: Seq<char>, first: bool)
    requires
        s.len() > 0,
    ensures
        snake_rec(s, first) == if is_upper(s[0]) {
            (if first {
                seq![lower_char(s[0])]
            } else {
                seq!['_', lower_char(s[0])]
            }) + snake_rec(s.skip(1), false)
        } else {
            seq![s[0]] + snake_rec(s.skip(1), false)
        },
{
    assert(s.drop_first() =~= s.skip(1));
}

proof fn lemma_camel_rec_step(s: Seq<char>, cap: bool)
    requires
        s.len() > 0,
    ensures
        camel_rec(s, cap) == if s[0] == '_' {
            camel_rec(s.skip(1), true)
        } else if cap {
            seq![upper_char(s[0])] + camel_rec(s.skip(1), false)
        } else {
            seq![s[0]] + camel_rec(s.skip(1), false)
        },
{
    assert(s.drop_first() =~= s.skip(1));
}

/// Convert a single identifier from camelCase to snake_case, for example
/// request keys into database column names.
pub fn to_snake_case(s: &str) -> (r: String)
    ensures
        r@ == snake_of(s@),
{
    let cs = str_chars(s);
    let n = cs.len();
    let mut out: Vec<char> = Vec::new();
    let mut i: usize = 0;
    proof {
        assert(s@.skip(0) =~= s@);
        assert(Seq::<char>::empty() + snake_rec(s@, true) =~= snake_rec(s@, true));
    }
    while i < n
        invariant
            i <= n,
            n == cs@.len(),
            cs@ == s@,
            snake_of(s@) == out@ + snake_rec(s@.skip(i as int), i == 0),
        decreases n - i,
    {
        let c = cs[i];
        proof {
            lemma_snake_rec_step(s@.skip(i as int), i == 0);
            assert(s@.skip(i as int).skip(1) =~= s@.skip(i as int + 1));
            assert(s@.skip(i as int)[0] == s@[i as int]);
        }
        let u = c as u32;
        if 65 <= u && u <= 90 {
            if i > 0 {
                out.push('_');
            }
            out.push(lower_exec(c));
        } else {
            out.push(c);
        }
        i += 1;
    }
    proof {
        assert(s@.skip(n as int) =~= Seq::<char>::empty());
        assert(out@ + Seq::<char>::empty() =~= out@);
    }
    chars_to_string(out)
}

/// Convert a single identifier from snake_case to camelCase, for example
/// database column names into response keys.
pub fn to_camel_case(s: &str) -> (r: String)
    ensures
        r@ == camel_of(s@),
{
    let cs = str_chars(s);
    let n = cs.len();
    let mut out: Vec<char> = Vec::new();
    let mut cap = false;
    let mut i: usize = 0;
    proof {
        assert(s@.skip(0) =~= s@);
        assert(Seq::<char>::empty() + camel_rec(s@, false) =~= camel_rec(s@, false));
    }
    while i < n
        invariant
            i <= n,
            n == cs@.len(),
            cs@ == s@,
            camel_of(s@) == out@ + camel_rec(s@.skip(i as int), cap),
        decreases n - i,
    {
        let c = cs[i];
        proof {
            lemma_camel_rec_step(s@.skip(i as int), cap);
            assert(s@.skip(i as int).skip(1) =~= s@.skip(i as int + 1));
            assert(s@.skip(i as int)[0] == s@[i as int]);
        }
        if c == '_' {
            cap = true;
        } else if cap {
            out.push(upper_exec(c));
            cap = false;
        } else {
            out.push(c);
        }
        i += 1;
    }
    proof {
        assert(s@.skip(n as int) =~= Seq::<char>::empty());
        assert(out@ + Seq::<char>::empty() =~= out@);
    }
    chars_to_string(out)
}

/// The ASCII-lowercase image of a character sequence.
pub open spec fn lower_seq(s: Seq<char>) -> Seq<char> {
    Seq::new(s.len(), |i: int| lower_char(s[i]))
}

/// Lower every uppercase ASCII letter of a string, as used for
/// case-insensitive matching of declared type names.
pub fn lower_ascii_str(s: &str) -> (r: String)
    ensures
        r@ == lower_seq(s@),
{
    let cs = str_chars(s);
    let n = cs.len();
    let mut out: Vec<char> = Vec::new();
    let mut i: usize = 0;
    while i < n
        invariant
            i <= n,
            n == cs@.len(),
            cs@ == s@,
            out@ == lower_seq(s@).take(i as int),
        decreases n - i,
    {
        out.push(lower_exec(cs[i]));
        proof {
            assert(lower_seq(s@).take(i + 1 as int) =~= lower_seq(s@).take(i as int).push(
                lower_char(s@[i as int]),
            ));
        }
        i += 1;
    }
    proof {
        assert(lower_seq(s@).take(n as int) =~= lower_seq(s@));
    }
    chars_to_string(out)
}

/// The ASCII-uppercase image of a character sequence.
pub open spec fn upper_seq(s: Seq<char>) -> Seq<char> {
    Seq::new(s.len(), |i: int| upper_char(s[i]))
}

/// Raise every lowercase ASCII letter of a string, as used for rendering
/// declared index directions.
pub fn upper_ascii_str(s: &str) -> (r: String)
    ensures
        r@ == upper_seq(s@),
{
    let cs = str_chars(s);
    let n = cs.len();
    let mut out: Vec<char> = Vec::new();
    let mut i: usize = 0;
    while i < n
        invariant
            i <= n,
            n == cs@.len(),
            cs@ == s@,
            out@ == upper_seq(s@).take(i as int),
        decreases n - i,
    {
        out.push(upper_exec(cs[i]));
        proof {
            assert(upper_seq(s@).take(i + 1 as int) =~= upper_seq(s@).take(i as int).push(
                upper_char(s@[i as int]),
            ));
        }
        i += 1;
    }
    proof {
        assert(upper_seq(s@).take(n as int) =~= upper_seq(s@));
    }
    chars_to_string(out)
}

/// A camelCase identifier: no underscores, and not starting with an
/// uppercase ASCII letter (so that no leading underscore is lost).
pub open spec fn camel_ident(s: Seq<char>) -> bool {
    &&& forall|i: int| 0 <= i < s.len() ==> s[i] != '_'
    &&& s.len() > 0 ==> !is_upper(s[0])
}

proof fn lemma_roundtrip_rest(s: Seq<char>)
    requires
        forall|i: int| 0 <= i < s.len() ==> s[i] != '_',
    ensures
        camel_rec(snake_rec(s, false), false) == s,
    decreases s.len(),
{
    if s.len() == 0 {
    } else {
        let c = s[0];
        let rest = s.drop_first();
        lemma_roundtrip_rest(rest);
        let srest = snake_rec(rest, false);
        if is_upper(c) {
            let t = seq!['_', lower_char(c)] + srest;
            let t2 = seq![lower_char(c)] + srest;
            assert(t[0] == '_');
            assert(t.drop_first() =~= t2);
            assert(t2[0] == lower_char(c));
            assert(lower_char(c) != '_');
            assert(t2.drop_first() =~= srest);
            assert(upper_char(lower_char(c)) == c);
            assert(camel_rec(t, false) == camel_rec(t2, true));
            assert(camel_rec(t2, true) == seq![upper_char(lower_char(c))] + camel_rec(srest, false));
            assert(camel_rec(t, false) =~= seq![c] + s.drop_first());
            assert(seq![c] + s.drop_first() =~= s);
        } else {
            let t = seq![c] + srest;
            assert(t[0] == c);
            assert(t.drop_first() =~= srest);
            assert(camel_rec(t, false) =~= seq![c] + s.drop_first());
            assert(seq![c] + s.drop_first() =~= s);
        }
    }
}

/// Round-trip law: for a camelCase identifier, snake-casing and then
/// camel-casing restores the original identifier.
pub proof fn lemma_case_roundtrip(s: Seq<char>)
    requires
        camel_ident(s),
    ensures
        camel_of(snake_of(s)) == s,
{
    if s.len() == 0 {
    } else {
        let c = s[0];
        let rest = s.drop_first();
        lemma_roundtrip_rest(rest);
        let srest = snake_rec(rest, false);
        let t = seq![c] + srest;
        assert(t[0] == c);
        assert(t.drop_first() =~= srest);
        assert(camel_rec(t, false) =~= seq![c] + rest);
        assert(seq![c] + rest =~= s);
    }
}

/// Fixed-point law: an identifier without uppercase ASCII letters is
/// unchanged by snake-casing.
pub proof fn lemma_snake_fixed_point(s: Seq<char>, first: bool)
    requires
        forall|i: int| 0 <= i < s.len() ==> !is_upper(s[i]),
    ensures
        snake_rec(s, first) == s,
    decreases s.len(),
{
    if s.len() == 0 {
        assert(snake_rec(s, first) =~= s);
    } else {
        lemma_snake_fixed_point(s.drop_first(), false);
        assert(seq![s[0]] + s.drop_first() =~= s);
    }
}

/// Fixed-point law: an identifier without underscores is unchanged by
/// camel-casing.
pub proof fn lemma_camel_fixed_point(s: Seq<char>)
    requires
        forall|i: int| 0 <= i < s.len() ==> s[i] != '_',
    ensures
        camel_of(s) == s,
    decreases s.len(),
{
    if s.len() == 0 {
        assert(camel_of(s) =~= s);
    } else {
        lemma_camel_fixed_point(s.drop_first());
        assert(seq![s[0]] + s.drop_first() =~= s);
    }
}

} // verus!
