use vstd::prelude::*;

verus! {

/// True of the ASCII capital letters, the characters that open a new word in
/// a variant identifier written in camel case.
pub open spec fn is_ascii_upper(c: char) -> bool {
    65 <= c as int && c as int <= 90
}

/// The lower-case form of an ASCII capital letter; any other character is
/// left unchanged.
pub open spec fn lower_char(c: char) -> char {
    if is_ascii_upper(c) {
        ((c as int + 32) as u8) as char
    } else {
        c
    }
}

/// The canonical tag of a variant identifier: every ASCII capital letter is
/// lowered, and an underscore is written before each one that does not open
/// the identifier. `ThankYou` becomes `thank_you`; a tag that is already
/// lower case is its own canonical tag.
///
/// This is the fixed case-conversion policy of the whole library: resolution
/// of a reported intent name against a variant set is an exact match on
/// these tags, with no case-insensitive or partial matching.
pub open spec fn canon(s: Seq<char>) -> Seq<char>
    decreases s.len(),
{
    if s.len() == 0 {
        Seq::<char>::empty()
    } else {
        let prefix = canon(s.drop_last());
        let c = s.last();
        if is_ascii_upper(c) && s.len() > 1 {
            prefix.push('_').push(lower_char(c))
        } else {
            prefix.push(lower_char(c))
        }
    }
}

/// Relies on std's `String::push`: appends exactly the given character.
#[verifier::external_body]
fn push_char(s: &mut String, c: char)
    ensures
        final(s)@ == old(s)@.push(c),
{
    s.push(c);
}

/// Builds the canonical tag of `ident`, character by character.
pub fn canonical_tag(ident: &str) -> (t: String)
    ensures
        t@ == canon(ident@),
{
    let n: usize = ident.unicode_len();
    let mut t = String::new();
    let mut i: usize = 0;
    while i < n
        invariant
            n == ident@.len(),
            i <= n,
            t@ == canon(ident@.subrange(0, i as int)),
        decreases n - i,
    {
        let c = ident.get_char(i);
        let u = c as u32;
        if 65 <= u && u <= 90 {
            if i > 0 {
                push_char(&mut t, '_');
            }
            push_char(&mut t, ((u + 32) as u8) as char);
        } else {
            push_char(&mut t, c);
        }
        proof {
            let s = ident@.subrange(0, i + 1);
            assert(s.drop_last() =~= ident@.subrange(0, i as int));
            assert(s.last() == ident@[i as int]);
        }
        i = i + 1;
    }
    proof {
        assert(ident@.subrange(0, n as int) =~= ident@);
    }
    t
}

/// No character of a canonical tag is an ASCII capital letter.
pub proof fn lemma_canon_no_upper(s: Seq<char>)
    ensures
        forall|i: int| 0 <= i < canon(s).len() ==> !is_ascii_upper(#[trigger] canon(s)[i]),
    decreases s.len(),
{
    if s.len() > 0 {
        lemma_canon_no_upper(s.drop_last());
        let pre = canon(s.drop_last());
        let c = s.last();
        assert(!is_ascii_upper(lower_char(c))) by {
            if is_ascii_upper(c) {
                assert((((c as int + 32) as u8) as char) as int == c as int + 32);
            }
        };
        assert(!is_ascii_upper('_'));
        assert forall|i: int| 0 <= i < canon(s).len() implies !is_ascii_upper(#[trigger] canon(s)[i]) by {
            if is_ascii_upper(c) && s.len() > 1 {
                assert(canon(s) == pre.push('_').push(lower_char(c)));
                if i < pre.len() {
                    assert(canon(s)[i] == pre[i]);
                } else if i == pre.len() {
                    assert(canon(s)[i] == '_');
                } else {
                    assert(canon(s)[i] == lower_char(c));
                }
            } else {
                assert(canon(s) == pre.push(lower_char(c)));
                if i < pre.len() {
                    assert(canon(s)[i] == pre[i]);
                } else {
                    assert(canon(s)[i] == lower_char(c));
                }
            }
        };
    }
}

/// A sequence without ASCII capital letters is its own canonical tag.
pub proof fn lemma_canon_fixed_point(s: Seq<char>)
    requires
        forall|i: int| 0 <= i < s.len() ==> !is_ascii_upper(#[trigger] s[i]),
    ensures
        canon(s) == s,
    decreases s.len(),
{
    if s.len() == 0 {
        assert(canon(s) =~= s);
    } else {
        lemma_canon_fixed_point(s.drop_last());
        assert(!is_ascii_upper(s.last()));
        assert(canon(s) =~= s);
    }
}

/// Canonical tag derivation is idempotent: deriving a tag from a tag gives
/// the same tag back. Together with `canon` being a total function of the
/// identifier, every variant identifier maps to exactly one tag.
pub proof fn lemma_canon_idempotent(s: Seq<char>)
    ensures
        canon(canon(s)) == canon(s),
{
    lemma_canon_no_upper(s);
    lemma_canon_fixed_point(canon(s));
}

} // verus!
