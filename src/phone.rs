//! Contact address normalisation.
//!
//! The policy is a value, not a constant of the lifecycle: a region supplies
//! its own country calling code. The stored contact is taken as a national
//! number whose first character is a trunk prefix (the `0` of a French
//! number), which is replaced by the calling code.
use vstd::prelude::*;

verus! {

/// The characters of `s` other than the space, in order.
pub open spec fn strip_spaces(s: Seq<char>) -> Seq<char>
    decreases s.len(),
{
    if s.len() == 0 {
        s
    } else if s.last() == ' ' {
        strip_spaces(s.drop_last())
    } else {
        strip_spaces(s.drop_last()).push(s.last())
    }
}

/// `s` without its first character; the empty sequence stays empty.
pub open spec fn drop_trunk_prefix(s: Seq<char>) -> Seq<char> {
    if s.len() == 0 {
        s
    } else {
        s.subrange(1, s.len() as int)
    }
}

/// The international form of a national number under a calling code.
pub open spec fn normalized_contact(country_prefix: Seq<char>, raw: Seq<char>) -> Seq<char> {
    country_prefix + drop_trunk_prefix(strip_spaces(raw))
}

/// A normalisation strategy: strip spaces, drop the trunk prefix, prepend
/// `country_prefix`.
pub struct PhonePolicy {
    pub country_prefix: String,
}

fn remove_spaces(raw: &str) -> (r: String)
    ensures
        r@ == strip_spaces(raw@),
{
    let n = raw.unicode_len();
    let mut out = String::new();
    let mut i: usize = 0;
    while i < n
        invariant
            n == raw@.len(),
            i <= n,
            out@ == strip_spaces(raw@.subrange(0, i as int)),
        decreases n - i,
    {
        let c = raw.get_char(i);
        assert(raw@.subrange(0, i + 1).drop_last() =~= raw@.subrange(0, i as int));
        if c != ' ' {
            out.append(raw.substring_char(i, i + 1));
        }
        i = i + 1;
    }
    assert(raw@.subrange(0, n as int) =~= raw@);
    out
}

impl PhonePolicy {
    /// The French policy: calling code `+33`.
    pub fn france() -> (r: PhonePolicy)
        ensures
            r.country_prefix@ == "+33"@,
    {
        PhonePolicy { country_prefix: String::from_str("+33") }
    }

    /// The address to hand the notifier for a stored contact.
    pub fn normalize(&self, raw: &str) -> (r: String)
        ensures
            r@ == normalized_contact(self.country_prefix@, raw@),
    {
        let stripped = remove_spaces(raw);
        let len = stripped.as_str().unicode_len();
        let mut out = self.country_prefix.clone();
        if len > 0 {
            out.append(stripped.as_str().substring_char(1, len));
        } else {
            assert(out@ + stripped@ =~= out@);
        }
        out
    }
}

proof fn lemma_strip_spaces_shape(s: Seq<char>)
    ensures
        strip_spaces(s).len() <= s.len(),
        forall|i: int| 0 <= i < strip_spaces(s).len() ==> strip_spaces(s)[i] != ' ',
        (forall|i: int| 0 <= i < s.len() ==> s[i] != ' ') ==> strip_spaces(s) == s,
    decreases s.len(),
{
    if s.len() > 0 {
        lemma_strip_spaces_shape(s.drop_last());
        if forall|i: int| 0 <= i < s.len() ==> s[i] != ' ' {
            assert forall|i: int| 0 <= i < s.drop_last().len() implies s.drop_last()[i] != ' ' by {
                assert(s.drop_last()[i] == s[i]);
            }
            assert(s[s.len() - 1] != ' ');
            assert(s.drop_last().push(s.last()) =~= s);
        }
    }
}

/// Normalisation under any calling code: the result is the code followed by
/// the contact with every space removed and its first remaining character
/// dropped; it holds no space after the code, and a contact already free of
/// spaces only loses its first character.
pub proof fn lemma_normalized_contact(country_prefix: Seq<char>, raw: Seq<char>)
    ensures
        normalized_contact(country_prefix, raw).subrange(0, country_prefix.len() as int) == country_prefix,
        forall|i: int|
            country_prefix.len() <= i < normalized_contact(country_prefix, raw).len() ==> normalized_contact(
                country_prefix,
                raw,
            )[i] != ' ',
        strip_spaces(raw).len() > 0 ==> normalized_contact(country_prefix, raw) == country_prefix
            + strip_spaces(raw).subrange(1, strip_spaces(raw).len() as int),
        strip_spaces(raw).len() > 0 ==> normalized_contact(country_prefix, raw).len() == country_prefix.len()
            + strip_spaces(raw).len() - 1,
        (raw.len() > 0 && forall|i: int| 0 <= i < raw.len() ==> raw[i] != ' ') ==> normalized_contact(
            country_prefix,
            raw,
        ) == country_prefix + raw.subrange(1, raw.len() as int),
{
    lemma_strip_spaces_shape(raw);
    let n = normalized_contact(country_prefix, raw);
    let t = drop_trunk_prefix(strip_spaces(raw));
    assert(n.subrange(0, country_prefix.len() as int) =~= country_prefix);
    assert forall|i: int| country_prefix.len() <= i < n.len() implies n[i] != ' ' by {
        assert(n[i] == t[i - country_prefix.len()]);
        if strip_spaces(raw).len() > 0 {
            assert(t[i - country_prefix.len()] == strip_spaces(raw)[i - country_prefix.len() + 1]);
        }
    }
}

} // verus!
