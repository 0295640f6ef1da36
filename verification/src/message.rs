//! Messages exchanged between the widget tree and the embedding application,
//! and the set type that carries them through one frame.

use vstd::prelude::*;
use vstd::std_specs::cmp::PartialEqSpec;

use core::hash::Hash;

verus! {

/// A message a widget can send or receive during one frame.
#[derive(Clone, Copy, Debug, PartialEq, Eq, Hash, Structural)]
pub enum UiMessage<T: Copy + Eq + Hash> {
    /// A message of the embedding application, never sent by elements on
    /// their own.
    Extern(T),
    /// Sent by an element that was clicked with the left mouse button,
    /// carrying its id. Elements with id 0 do not send messages.
    Clicked(u32),
    /// Sent by an element that was clicked with the right mouse button,
    /// carrying its id. Elements with id 0 do not send messages.
    ClickedRight(u32),
    /// Sent by an element when one of its registered keys was just pressed,
    /// carrying its id. Elements with id 0 do not send messages.
    PressedKey(u32),
    /// Sent in addition to the specific event whenever an element is
    /// triggered in any way (click or key press), carrying its id.
    Triggered(u32),
}

/// Whether the equality of `T` is the structural equality of its values.
/// This holds for the integer types and for tuples of them; every statement
/// about message-set membership is made under this assumption.
pub open spec fn reflects_eq<T: Copy + Eq + Hash + PartialEqSpec>() -> bool {
    &&& T::obeys_eq_spec()
    &&& forall|x: T, y: T| #[trigger] x.eq_spec(&y) <==> x == y
}

/// Compares two messages for equality.
pub fn msg_eq<T: Copy + Eq + Hash + PartialEqSpec>(a: &UiMessage<T>, b: &UiMessage<T>) -> (r:
    bool)
    ensures
        reflects_eq::<T>() ==> r == (*a == *b),
{
    match (a, b) {
        (UiMessage::Extern(x), UiMessage::Extern(y)) => *x == *y,
        (UiMessage::Clicked(i), UiMessage::Clicked(j)) => *i == *j,
        (UiMessage::ClickedRight(i), UiMessage::ClickedRight(j)) => *i == *j,
        (UiMessage::PressedKey(i), UiMessage::PressedKey(j)) => *i == *j,
        (UiMessage::Triggered(i), UiMessage::Triggered(j)) => *i == *j,
        _ => false,
    }
}

/// The set of messages held by a sequence.
pub open spec fn msgs_of_seq<T: Copy + Eq + Hash>(s: Seq<UiMessage<T>>) -> Set<UiMessage<T>>
    decreases s.len(),
{
    if s.len() == 0 {
        Set::empty()
    } else {
        msgs_of_seq(s.drop_last()).insert(s.last())
    }
}

/// Membership in the set matches membership in the sequence.
pub proof fn lemma_msgs_of_seq_contains<T: Copy + Eq + Hash>(
    s: Seq<UiMessage<T>>,
    m: UiMessage<T>,
)
    ensures
        msgs_of_seq(s).contains(m) <==> s.contains(m),
    decreases s.len(),
{
    if s.len() > 0 {
        lemma_msgs_of_seq_contains(s.drop_last(), m);
        if s.contains(m) {
            let i = choose|i: int| 0 <= i < s.len() && s[i] == m;
            if i < s.len() - 1 {
                assert(s.drop_last().contains(m)) by {
                    assert(s.drop_last()[i] == m);
                }
            }
        }
    }
}

/// A set of frame messages, viewed as a mathematical set of messages.
/// Duplicates are never stored.
pub struct UiMessageSet<T: Copy + Eq + Hash + PartialEqSpec> {
    /// The stored messages.
    items: Vec<UiMessage<T>>,
}

impl<T: Copy + Eq + Hash + PartialEqSpec> View for UiMessageSet<T> {
    type V = Set<UiMessage<T>>;

    closed spec fn view(&self) -> Set<UiMessage<T>> {
        msgs_of_seq(self.items@)
    }
}

impl<T: Copy + Eq + Hash + PartialEqSpec> UiMessageSet<T> {
    /// Returns the empty message set.
    pub fn new() -> (r: Self)
        ensures
            r@ == Set::<UiMessage<T>>::empty(),
    {
        UiMessageSet { items: Vec::new() }
    }

    /// Whether the set holds the given message.
    pub fn contains(&self, m: &UiMessage<T>) -> (r: bool)
        ensures
            reflects_eq::<T>() ==> r == self@.contains(*m),
    {
        let n = self.items.len();
        let mut i: usize = 0;
        while i < n
            invariant
                0 <= i <= n,
                n == self.items.len(),
                reflects_eq::<T>() ==> forall|j: int| 0 <= j < i ==> self.items@[j] != *m,
            decreases n - i,
        {
            if msg_eq(&self.items[i], m) {
                proof {
                    lemma_msgs_of_seq_contains(self.items@, *m);
                }
                return true;
            }
            i = i + 1;
        }
        proof {
            lemma_msgs_of_seq_contains(self.items@, *m);
        }
        false
    }

    /// Adds a message to the set.
    pub fn insert(&mut self, m: UiMessage<T>)
        ensures
            reflects_eq::<T>() ==> final(self)@ == old(self)@.insert(m),
    {
        if !self.contains(&m) {
            self.items.push(m);
            proof {
                assert(self.items@.drop_last() =~= old(self).items@);
            }
        } else {
            proof {
                if reflects_eq::<T>() {
                    assert(old(self)@.insert(m) =~= old(self)@);
                }
            }
        }
    }

    /// Adds every message of `other` to this set.
    pub fn union_with(&mut self, other: &UiMessageSet<T>)
        ensures
            reflects_eq::<T>() ==> final(self)@ == old(self)@.union(other@),
    {
        let n = other.items.len();
        let mut i: usize = 0;
        while i < n
            invariant
                n == other.items.len(),
                0 <= i <= n,
                reflects_eq::<T>() ==> self@ == old(self)@.union(
                    msgs_of_seq(other.items@.take(i as int)),
                ),
            decreases n - i,
        {
            proof {
                if reflects_eq::<T>() {
                    assert(other.items@.take(i + 1).drop_last() =~= other.items@.take(i as int));
                    assert(old(self)@.union(msgs_of_seq(other.items@.take(i + 1))) =~= old(
                        self,
                    )@.union(msgs_of_seq(other.items@.take(i as int))).insert(other.items@[i as int]));
                }
            }
            let mv = other.items[i];
            self.insert(mv);
            i = i + 1;
        }
        proof {
            if reflects_eq::<T>() {
                assert(other.items@.take(n as int) =~= other.items@);
            }
        }
    }

    /// The messages of the set, in insertion order, without duplicates.
    pub fn items(&self) -> (r: &Vec<UiMessage<T>>)
        ensures
            msgs_of_seq(r@) == self@,
    {
        &self.items
    }

    /// The number of stored messages.
    pub fn len(&self) -> (n: usize)
        ensures
            n == 0 <==> self@ == Set::<UiMessage<T>>::empty(),
    {
        proof {
            if self.items@.len() == 0 {
                assert(self@ =~= Set::<UiMessage<T>>::empty());
            } else {
                lemma_msgs_of_seq_contains(self.items@, self.items@.last());
                assert(self.items@.contains(self.items@.last()));
                assert(self@ != Set::<UiMessage<T>>::empty()) by {
                    assert(self@.contains(self.items@.last()));
                    assert(!Set::<UiMessage<T>>::empty().contains(self.items@.last()));
                }
            }
        }
        self.items.len()
    }
}

} // verus!
