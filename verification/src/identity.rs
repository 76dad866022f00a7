//! Identities of the local agent, and the tokens by which one is chosen.

use vstd::prelude::*;
use vstd::string::*;
use crate::credential::MARKER;
use crate::search::{contains_chars, is_substring, occurs_at};
use crate::text::{chars_of, decimal, push_decimal};

verus! {

/// An identity that the agent offers: the comment of its public key, and
/// the checksum of the key's bytes.
#[derive(Clone, Debug, PartialEq, Eq)]
pub struct Identity {
    pub comment: String,
    pub checksum: u32,
}

/// What an `Identity` stands for.
pub ghost struct IdentityView {
    pub comment: Seq<char>,
    pub checksum: u32,
}

impl View for Identity {
    type V = IdentityView;

    open spec fn view(&self) -> IdentityView {
        IdentityView { comment: self.comment@, checksum: self.checksum }
    }
}

/// The sum of the bytes of `blob`.
pub open spec fn byte_sum(blob: Seq<u8>) -> nat
    decreases blob.len(),
{
    if blob.len() == 0 {
        0
    } else {
        byte_sum(blob.drop_last()) + blob.last() as nat
    }
}

/// The checksum of a key: the sum of its bytes, modulo 2^32. It is no
/// digest: keys with the same sum have the same checksum.
pub open spec fn checksum_of(blob: Seq<u8>) -> u32 {
    (byte_sum(blob) % 0x1_0000_0000) as u32
}

/// What a selector must hold to choose the identity: its comment, then its
/// checksum in decimal.
pub open spec fn match_key(id: IdentityView) -> Seq<char> {
    id.comment + decimal(id.checksum as nat)
}

/// The token that stands for the identity: the marker, then its match key.
pub open spec fn token_text(id: IdentityView) -> Seq<char> {
    seq![MARKER] + match_key(id)
}

/// Whether `selector` chooses the identity: it holds the identity's match
/// key somewhere. This is containment, not equality, so a selector made
/// for one identity also chooses any other whose match key it happens to hold.
pub open spec fn chooses(selector: Seq<char>, id: IdentityView) -> bool {
    is_substring(match_key(id), selector)
}

/// What a list of identities stands for.
pub open spec fn identities_view(ids: Seq<Identity>) -> Seq<IdentityView> {
    Seq::new(ids.len(), |i: int| ids[i]@)
}

/// Whether `ids[i]` is the first of `ids` that `selector` chooses.
pub open spec fn first_chosen(ids: Seq<IdentityView>, selector: Seq<char>, i: int) -> bool {
    &&& 0 <= i < ids.len()
    &&& chooses(selector, ids[i])
    &&& forall|j: int| 0 <= j < i ==> !chooses(selector, #[trigger] ids[j])
}

/// The position of the first of `ids` that `selector` chooses, if it
/// chooses any.
pub open spec fn select_spec(ids: Seq<IdentityView>, selector: Seq<char>) -> Option<int> {
    if exists|i: int| 0 <= i < ids.len() && chooses(selector, #[trigger] ids[i]) {
        Some(choose|i: int| first_chosen(ids, selector, i))
    } else {
        None
    }
}

/// The tokens of `ids`, in order.
pub open spec fn tokens_of(ids: Seq<IdentityView>) -> Seq<Seq<char>> {
    Seq::new(ids.len(), |i: int| token_text(ids[i]))
}

/// The token of an identity holds the marker, and chooses the identity.
pub proof fn lemma_token_chooses_itself(id: IdentityView)
    ensures
        chooses(token_text(id), id),
        token_text(id).contains(MARKER),
{
    let t = token_text(id);
    let k = match_key(id);
    assert(t.subrange(1, 1 + k.len() as int) =~= k);
    assert(occurs_at(t, k, 1));
    assert(t[0] == MARKER);
}

/// The checksum of a key.
pub fn checksum(blob: &[u8]) -> (r: u32)
    ensures
        r == checksum_of(blob@),
{
    let mut sum: u32 = 0;
    let mut i: usize = 0;
    while i < blob.len()
        invariant
            0 <= i <= blob.len(),
            sum == checksum_of(blob@.take(i as int)),
        decreases blob.len() - i,
    {
        proof {
            assert(blob@.take(i + 1).drop_last() =~= blob@.take(i as int));
            assert(blob@.take(i + 1).last() == blob@[i as int]);
        }
        sum = sum.wrapping_add(blob[i] as u32);
        i += 1;
    }
    assert(blob@.take(blob.len() as int) =~= blob@);
    sum
}

impl Identity {
    /// The identity of a key with the given comment and bytes.
    pub fn new(comment: String, blob: &[u8]) -> (id: Identity)
        ensures
            id@ == (IdentityView { comment: comment@, checksum: checksum_of(blob@) }),
    {
        Identity { comment, checksum: checksum(blob) }
    }

    /// What a selector must hold to choose this identity.
    pub fn match_key(&self) -> (r: String)
        ensures
            r@ == match_key(self@),
    {
        let mut r = self.comment.clone();
        push_decimal(&mut r, self.checksum);
        r
    }

    /// The token that stands for this identity.
    pub fn token(&self) -> (r: String)
        ensures
            r@ == token_text(self@),
    {
        let mut r = String::new();
        r.append("\u{1F511}");
        r.append(self.comment.as_str());
        push_decimal(&mut r, self.checksum);
        proof {
            reveal_strlit("\u{1F511}");
            assert("\u{1F511}"@ =~= seq![MARKER]);
            assert(r@ =~= token_text(self@));
        }
        r
    }
}

/// The position of the first of `ids` that `selector` chooses.
pub fn select_identity(ids: &Vec<Identity>, selector: &str) -> (r: Option<usize>)
    ensures
        match r {
            Some(i) => first_chosen(identities_view(ids@), selector@, i as int) && select_spec(
                identities_view(ids@),
                selector@,
            ) == Some(i as int),
            None => select_spec(identities_view(ids@), selector@) is None,
        },
{
    let hay = chars_of(selector);
    let mut i: usize = 0;
    while i < ids.len()
        invariant
            0 <= i <= ids.len(),
            hay@ == selector@,
            forall|j: int|
                0 <= j < i ==> !chooses(selector@, #[trigger] identities_view(ids@)[j]),
        decreases ids.len() - i,
    {
        let key = ids[i].match_key();
        let needle = chars_of(key.as_str());
        if contains_chars(&hay, &needle) {
            proof {
                lemma_first_chosen_unique(identities_view(ids@), selector@, i as int);
            }
            return Some(i);
        }
        i += 1;
    }
    None
}

/// There is at most one first.
pub proof fn lemma_first_chosen_unique(ids: Seq<IdentityView>, selector: Seq<char>, i: int)
    requires
        first_chosen(ids, selector, i),
    ensures
        select_spec(ids, selector) == Some(i),
{
    let k = choose|k: int| first_chosen(ids, selector, k);
    assert(first_chosen(ids, selector, k));
    if k < i {
        assert(!chooses(selector, ids[k]));
    }
    if i < k {
        assert(!chooses(selector, ids[i]));
    }
}

/// Among identities of which the selector chooses one, there is a first
/// that it chooses.
pub proof fn lemma_first_chosen_exists(ids: Seq<IdentityView>, selector: Seq<char>, i: int)
    requires
        0 <= i < ids.len(),
        chooses(selector, ids[i]),
    ensures
        select_spec(ids, selector) matches Some(j) && j <= i && first_chosen(ids, selector, j),
    decreases i,
{
    if exists|j: int| 0 <= j < i && chooses(selector, #[trigger] ids[j]) {
        let j = choose|j: int| 0 <= j < i && chooses(selector, #[trigger] ids[j]);
        lemma_first_chosen_exists(ids, selector, j);
    } else {
        assert(first_chosen(ids, selector, i));
        lemma_first_chosen_unique(ids, selector, i);
    }
}

/// A selector taken from the tokens that were listed always finds an
/// identity: the one it was made for, or one listed before it whose match
/// key the token holds as well.
pub proof fn lemma_listed_token_selects(ids: Seq<IdentityView>, i: int)
    requires
        0 <= i < ids.len(),
    ensures
        select_spec(ids, tokens_of(ids)[i]) matches Some(j) && j <= i && chooses(
            token_text(ids[i]),
            ids[j],
        ),
{
    lemma_token_chooses_itself(ids[i]);
    lemma_first_chosen_exists(ids, token_text(ids[i]), i);
}

/// The tokens of the identities, in order.
pub fn list_identities(ids: &Vec<Identity>) -> (r: Vec<String>)
    ensures
        r.len() == ids.len(),
        forall|i: int| 0 <= i < ids.len() ==> (#[trigger] r@[i])@ == token_text(ids@[i]@),
        Seq::new(r@.len(), |i: int| r@[i]@) == tokens_of(identities_view(ids@)),
{
    let mut r: Vec<String> = Vec::new();
    let mut i: usize = 0;
    while i < ids.len()
        invariant
            0 <= i <= ids.len(),
            r.len() == i,
            forall|j: int| 0 <= j < i ==> (#[trigger] r@[j])@ == token_text(ids@[j]@),
        decreases ids.len() - i,
    {
        r.push(ids[i].token());
        i += 1;
    }
    assert(Seq::new(r@.len(), |i: int| r@[i]@) =~= tokens_of(identities_view(ids@)));
    r
}

} // verus!
