//! Outcomes of reading a piece of the data, and of reading lists of pieces.
use vstd::prelude::*;

use crate::edupage_data::views;
use crate::edupage_types::Error;

verus! {

/// What reading a piece of the data gives.
#[derive(Debug)]
pub enum Outcome<T> {
    /// The piece decodes to this value.
    Done(T),
    /// The piece is refused with this error.
    Fails(Error),
    /// The piece cannot be read at all: a required field is missing or of
    /// the wrong kind, or an id is not a number.
    Unreadable,
}

impl<T: View> View for Outcome<T> {
    type V = Outcome<T::V>;

    open spec fn view(&self) -> Outcome<T::V> {
        match self {
            Outcome::Done(x) => Outcome::Done(x@),
            Outcome::Fails(e) => Outcome::Fails(*e),
            Outcome::Unreadable => Outcome::Unreadable,
        }
    }
}

/// The contents of an outcome that holds a list.
pub open spec fn list_view<T: View>(o: Outcome<Vec<T>>) -> Outcome<Seq<T::V>> {
    match o {
        Outcome::Done(v) => Outcome::Done(views(v@)),
        Outcome::Fails(e) => Outcome::Fails(e),
        Outcome::Unreadable => Outcome::Unreadable,
    }
}

/// The outcome of a piece that follows one that did not decode.
pub open spec fn stop<T, U>(o: Outcome<T>) -> Outcome<U> {
    match o {
        Outcome::Fails(e) => Outcome::Fails(e),
        _ => Outcome::Unreadable,
    }
}

/// A decoded item that is kept.
pub open spec fn keep<T>(o: Outcome<T>) -> Outcome<Option<T>> {
    match o {
        Outcome::Done(x) => Outcome::Done(Some(x)),
        Outcome::Fails(e) => Outcome::Fails(e),
        Outcome::Unreadable => Outcome::Unreadable,
    }
}

/// Decodes the items of a list in order, keeping those that decode to
/// `Some`, and stopping at the first item that does not decode.
pub open spec fn collect_with<A, T>(items: Seq<A>, f: spec_fn(A) -> Outcome<Option<T>>) -> Outcome<
    Seq<T>,
>
    decreases items.len(),
{
    if items.len() == 0 {
        Outcome::Done(Seq::empty())
    } else {
        match collect_with(items.drop_last(), f) {
            Outcome::Done(done) => match f(items.last()) {
                Outcome::Done(Some(x)) => Outcome::Done(done.push(x)),
                Outcome::Done(None) => Outcome::Done(done),
                Outcome::Fails(e) => Outcome::Fails(e),
                Outcome::Unreadable => Outcome::Unreadable,
            },
            other => other,
        }
    }
}

/// Once a prefix of a list fails to decode, so does the whole list, alike.
pub proof fn lemma_collect_prefix<A, T>(items: Seq<A>, f: spec_fn(A) -> Outcome<Option<T>>, i: int)
    requires
        0 <= i <= items.len(),
        !(collect_with(items.take(i), f) is Done),
    ensures
        collect_with(items, f) == collect_with(items.take(i), f),
    decreases items.len() - i,
{
    if i < items.len() {
        assert(items.take(i + 1).drop_last() =~= items.take(i));
        lemma_collect_prefix(items, f, i + 1);
    } else {
        assert(items.take(i) =~= items);
    }
}

/// Decoding one more item of a list.
pub proof fn lemma_collect_step<A, T>(items: Seq<A>, f: spec_fn(A) -> Outcome<Option<T>>, i: int)
    requires
        0 <= i < items.len(),
    ensures
        collect_with(items.take(i + 1), f) == match collect_with(items.take(i), f) {
            Outcome::Done(done) => match f(items[i]) {
                Outcome::Done(Some(x)) => Outcome::Done(done.push(x)),
                Outcome::Done(None) => Outcome::Done(done),
                Outcome::Fails(e) => Outcome::Fails(e),
                Outcome::Unreadable => Outcome::Unreadable,
            },
            other => other,
        },
{
    assert(items.take(i + 1).drop_last() =~= items.take(i));
    assert(items.take(i + 1).last() == items[i]);
}

/// An item that follows a decoded prefix and does not decode decides the
/// outcome of the whole list.
pub proof fn lemma_collect_item<A, T>(items: Seq<A>, f: spec_fn(A) -> Outcome<Option<T>>, i: int)
    requires
        0 <= i < items.len(),
        collect_with(items.take(i), f) is Done,
    ensures
        f(items[i]) matches Outcome::Fails(e) ==> collect_with(items, f) == Outcome::<Seq<T>>::Fails(e),
        f(items[i]) is Unreadable ==> collect_with(items, f) == Outcome::<Seq<T>>::Unreadable,
{
    lemma_collect_step(items, f, i);
    if !(f(items[i]) is Done) {
        lemma_collect_prefix(items, f, i + 1);
    }
}

// ---------------------------------------------------------------------
// What errors the data can give
// ---------------------------------------------------------------------

/// The outcome is no error other than `ParseError`.
pub open spec fn only_parse_errors<T>(o: Outcome<T>) -> bool {
    o matches Outcome::Fails(e) ==> e == Error::ParseError
}

/// When no item of a list can fail with another error than `ParseError`,
/// neither can the list.
pub proof fn lemma_collect_parse_errors<A, T>(items: Seq<A>, f: spec_fn(A) -> Outcome<Option<T>>)
    requires
        forall|a: A| only_parse_errors(#[trigger] f(a)),
    ensures
        only_parse_errors(collect_with(items, f)),
    decreases items.len(),
{
    if items.len() > 0 {
        lemma_collect_parse_errors(items.drop_last(), f);
        assert(only_parse_errors(f(items.last())));
    }
}

/// Reading a list whose items are all kept gives, when it succeeds, one
/// value per item, each what reading that item alone gives.
pub proof fn lemma_collect_kept<A, T>(
    items: Seq<A>,
    f: spec_fn(A) -> Outcome<Option<T>>,
    g: spec_fn(A) -> Outcome<T>,
)
    requires
        forall|a: A| #[trigger] f(a) == keep(g(a)),
    ensures
        collect_with(items, f) matches Outcome::Done(xs) ==> xs.len() == items.len() && forall|i: int|
            0 <= i < items.len() ==> g(items[i]) == Outcome::Done(#[trigger] xs[i]),
    decreases items.len(),
{
    if items.len() > 0 {
        lemma_collect_kept(items.drop_last(), f, g);
        assert(f(items.last()) == keep(g(items.last())));
        if let Outcome::Done(xs) = collect_with(items, f) {
            let ys = collect_with(items.drop_last(), f)->Done_0;
            assert forall|i: int| 0 <= i < items.len() implies g(items[i]) == Outcome::Done(
                #[trigger] xs[i],
            ) by {
                if i < items.len() - 1 {
                    assert(items.drop_last()[i] == items[i]);
                    assert(xs[i] == ys[i]);
                }
            }
        }
    }
}

} // verus!
