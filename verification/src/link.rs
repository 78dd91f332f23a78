//! The anchors a link can reveal, and how a modified press asks to follow a link.
//!
//! A box registers under a name and holds the registration for as long as it answers to that name; a later registration of the same name replaces an earlier one, and an earlier one dropped after that leaves the later standing. Each registration is known by a token, so the registry can tell whose it is without holding what the box does to reveal itself.

use vstd::prelude::*;

use rustc_hash::FxHashMap;

use crate::fx::{fx_map_get, fx_map_insert, fx_map_remove};
use crate::keys::ModifiersState;
use crate::names::empty_names;

verus! {

/// What the anchor registry files its names in.
type AnchorNames = FxHashMap<String, u64>;

/// The names an Fx-hashed map of anchors files, each with the token of the registration answering to it.
pub uninterp spec fn anchor_map(m: AnchorNames) -> Map<Seq<char>, u64>;

/// An empty `FxHashMap::default()`. Claims it files no name.
#[verifier::external_body]
fn anchors_new() -> (fresh: AnchorNames)
    ensures
        anchor_map(fresh) == empty_names::<u64>(),
{
    FxHashMap::default()
}

/// `HashMap::insert` keyed by a `String` made from `name`. Claims `name` files `token` afterwards and nothing else changed: `String`'s equality and hash go by its text, and the Fx hasher is deterministic.
#[verifier::external_body]
fn anchors_insert(m: &mut AnchorNames, name: &str, token: u64)
    ensures
        anchor_map(*final(m)) == anchor_map(*old(m)).insert(name@, token),
{
    m.insert(name.to_string(), token);
}

/// `HashMap::get` by text, copied out. Claims the answer is the token `name` files, if any.
#[verifier::external_body]
fn anchors_get(m: &AnchorNames, name: &str) -> (r: Option<u64>)
    ensures
        r == (if anchor_map(*m).contains_key(name@) {
            Some(anchor_map(*m)[name@])
        } else {
            None
        }),
{
    m.get(name).copied()
}

/// `HashMap::remove` by text. Claims `name` files nothing afterwards and nothing else changed.
#[verifier::external_body]
fn anchors_remove(m: &mut AnchorNames, name: &str)
    ensures
        anchor_map(*final(m)) == anchor_map(*old(m)).remove(name@),
{
    m.remove(name);
}

/// Keeps an anchor registered, until it is withdrawn with [`Anchors::withdraw`].
pub struct AnchorRegistration {
    name: String,
    token: u64,
}

impl AnchorRegistration {
    /// The name registered under.
    pub closed spec fn name(&self) -> Seq<char> {
        self.name@
    }

    /// The token that tells this registration from every other.
    pub closed spec fn token(&self) -> u64 {
        self.token
    }

    /// The token that tells this registration from every other.
    pub fn token_of(&self) -> (r: u64)
        ensures
            r == self.token(),
    {
        self.token
    }
}

/// The anchors registered on one tree.
pub struct Anchors {
    names: AnchorNames,
    next: u64,
}

impl Anchors {
    /// The name-to-token map, as mathematics.
    pub closed spec fn names(&self) -> Map<Seq<char>, u64> {
        anchor_map(self.names)
    }

    /// The token the next registration gets.
    pub closed spec fn next(&self) -> u64 {
        self.next
    }

    /// Holds together: every filed token was handed out before the next one.
    pub open spec fn wf(&self) -> bool {
        forall|n: Seq<char>| #[trigger] self.names().contains_key(n) ==> self.names()[n] < self.next()
    }

    /// No anchor registered.
    pub fn new() -> (r: Self)
        ensures
            r.wf(),
            r.names() == empty_names::<u64>(),
            r.next() == 0,
    {
        Anchors { names: anchors_new(), next: 0 }
    }

    /// Whether a token is left to hand out, so that [`Anchors::register_anchor`] may be called.
    pub fn has_room(&self) -> (r: bool)
        ensures
            r == (self.next() < u64::MAX),
    {
        self.next < u64::MAX
    }

    /// Makes `name` an anchor a link can reveal, until the returned registration is withdrawn. A later registration of the same name replaces an earlier one.
    pub fn register_anchor(&mut self, name: &str) -> (r: AnchorRegistration)
        requires
            old(self).wf(),
            old(self).next() < u64::MAX,
        ensures
            final(self).wf(),
            r.name() == name@,
            r.token() == old(self).next(),
            final(self).next() == old(self).next() + 1,
            final(self).names() == old(self).names().insert(name@, r.token()),
    {
        let token = self.next;
        self.next = token + 1;
        anchors_insert(&mut self.names, name, token);
        proof {
            assert forall|n: Seq<char>| #[trigger] self.names().contains_key(n) implies self.names()[n]
                < self.next() by {
                if n != name@ {
                    assert(old(self).names().contains_key(n));
                }
            }
        }
        AnchorRegistration { name: name.to_owned(), token }
    }

    /// The token of the registration that answers to `name`, if any: whose reveal to run when a link is followed to that anchor.
    pub fn reveal_anchor(&self, name: &str) -> (r: Option<u64>)
        ensures
            r == (if self.names().contains_key(name@) {
                Some(self.names()[name@])
            } else {
                None
            }),
    {
        anchors_get(&self.names, name)
    }

    /// Withdraws `registration`: its name stops answering, unless a later registration has taken the name over since.
    pub fn withdraw(&mut self, registration: AnchorRegistration)
        requires
            old(self).wf(),
        ensures
            final(self).wf(),
            final(self).next() == old(self).next(),
            final(self).names() == (if old(self).names().contains_key(registration.name())
                && old(self).names()[registration.name()] == registration.token() {
                old(self).names().remove(registration.name())
            } else {
                old(self).names()
            }),
    {
        let current = anchors_get(&self.names, registration.name.as_str());
        if current == Some(registration.token) {
            anchors_remove(&mut self.names, registration.name.as_str());
        }
        proof {
            assert forall|n: Seq<char>| #[trigger] self.names().contains_key(n) implies self.names()[n]
                < self.next() by {
                assert(old(self).names().contains_key(n));
            }
        }
    }
}

/// Makes `name` an anchor of `anchors`; see [`Anchors::register_anchor`].
pub fn register_anchor(anchors: &mut Anchors, name: &str) -> (r: AnchorRegistration)
    requires
        old(anchors).wf(),
        old(anchors).next() < u64::MAX,
    ensures
        final(anchors).wf(),
        r.name() == name@,
        r.token() == old(anchors).next(),
        final(anchors).next() == old(anchors).next() + 1,
        final(anchors).names() == old(anchors).names().insert(name@, r.token()),
{
    anchors.register_anchor(name)
}

/// The registration of `anchors` that answers to `name`; see [`Anchors::reveal_anchor`].
pub fn reveal_anchor(anchors: &Anchors, name: &str) -> (r: Option<u64>)
    ensures
        r == (if anchors.names().contains_key(name@) {
            Some(anchors.names()[name@])
        } else {
            None
        }),
{
    anchors.reveal_anchor(name)
}

/// No box is a link.
pub open spec fn no_links() -> Map<u64, u64> {
    Map::empty()
}

/// The boxes that are links, each by its layout node, with the token of what reads its destination: what a surface that activated a box by itself follows.
pub struct LinkTable {
    links: FxHashMap<u64, u64>,
}

impl View for LinkTable {
    type V = Map<u64, u64>;

    closed spec fn view(&self) -> Map<u64, u64> {
        self.links@
    }
}

impl LinkTable {
    /// No link registered.
    pub fn new() -> (r: Self)
        ensures
            r@ == no_links(),
    {
        LinkTable { links: FxHashMap::default() }
    }

    /// Makes box `node` a link, whose destination the reader `token` reads; replaces any reader it had.
    pub fn register_link(&mut self, node: u64, token: u64)
        ensures
            final(self)@ == old(self)@.insert(node, token),
    {
        fx_map_insert(&mut self.links, node, token);
    }

    /// Box `node` is a link no more.
    pub fn unregister_link(&mut self, node: u64)
        ensures
            final(self)@ == old(self)@.remove(node),
    {
        fx_map_remove(&mut self.links, node);
    }

    /// The reader of the link on box `node`, for a surface that activated it by itself; `None` when the box is gone or is no link.
    pub fn activate_box(&self, node: u64) -> (r: Option<u64>)
        ensures
            r == (if self@.contains_key(node) {
                Some(self@[node])
            } else {
                None
            }),
    {
        fx_map_get(&self.links, node)
    }
}

/// Whether a press with `modifiers` held asks to follow a link in a view beside this one: Ctrl, Cmd or Shift, as on a web page.
pub fn wants_beside(modifiers: ModifiersState) -> (r: bool)
    ensures
        r == (modifiers.is_ctrl || modifiers.is_meta || modifiers.is_shift),
{
    modifiers.is_ctrl || modifiers.is_meta || modifiers.is_shift
}

/// A later registration of a name replaces an earlier one, and withdrawing the earlier one afterwards leaves the later one answering.
pub proof fn lemma_a_later_registration_wins(names: Map<Seq<char>, u64>, name: Seq<char>, earlier: u64, later: u64)
    requires
        earlier != later,
    ensures
        names.insert(name, earlier).insert(name, later)[name] == later,
        names.insert(name, earlier).insert(name, later)[name] != earlier,
{
}

/// Withdrawing the registration that answers to a name leaves nothing answering to it, and every other name as it was.
pub proof fn lemma_withdrawing_the_current_registration(names: Map<Seq<char>, u64>, name: Seq<char>, other: Seq<char>, token: u64)
    requires
        name != other,
    ensures
        !names.insert(name, token).remove(name).contains_key(name),
        names.insert(name, token).remove(name).contains_key(other) == names.contains_key(other),
{
}

} // verus!
