//! The most recent output of a node, in a queue that drops its oldest entry when it is full.

use crossbeam::queue::ArrayQueue;
use vstd::prelude::*;

verus! {

#[verifier::external_type_specification]
#[verifier::external_body]
#[verifier::reject_recursive_types(T)]
pub struct ExArrayQueue<T>(ArrayQueue<T>);

/// The texts in the queue, the oldest one first.
pub uninterp spec fn recent(queue: ArrayQueue<String>) -> Seq<Seq<char>>;

/// How many texts the queue was made to hold.
pub uninterp spec fn recent_capacity(queue: ArrayQueue<String>) -> nat;

/// `ArrayQueue::force_push`, on a queue that nobody else uses meanwhile: the text goes to the end.
/// Where the queue was full, its oldest text makes room and is returned. A queue never holds more
/// than it was made for.
#[verifier::external_body]
fn force_push(queue: &mut ArrayQueue<String>, text: String) -> (dropped: Option<String>)
    ensures
        recent_capacity(*final(queue)) == recent_capacity(*old(queue)),
        recent(*final(queue)).len() <= recent_capacity(*final(queue)),
        match dropped {
            None => recent(*old(queue)).len() < recent_capacity(*old(queue)) && recent(
                *final(queue),
            ) == recent(*old(queue)).push(text@),
            Some(oldest) => recent(*old(queue)).len() == recent_capacity(*old(queue)) && oldest@
                == recent(*old(queue))[0] && recent(*final(queue)) == recent(*old(queue)).skip(
                1,
            ).push(text@),
        },
{
    queue.force_push(text)
}

/// The last `n` entries of a history.
pub open spec fn latest(history: Seq<Seq<char>>, n: nat) -> Seq<Seq<char>> {
    if history.len() <= n {
        history
    } else {
        history.skip(history.len() - n)
    }
}

/// Adds a text to the most recent output.
pub fn remember(queue: &mut ArrayQueue<String>, text: String)
    ensures
        recent_capacity(*final(queue)) == recent_capacity(*old(queue)),
        recent(*final(queue)) == latest(
            recent(*old(queue)).push(text@),
            recent_capacity(*old(queue)),
        ),
{
    let ghost before = recent(*queue);
    let ghost cap = recent_capacity(*queue);
    let _ = force_push(queue, text);
    assert(before.len() >= cap ==> before.push(text@).skip(1) =~= before.skip(1).push(text@));
}

/// What a queue of capacity `n` holds after a series of texts.
pub open spec fn remembered(held: Seq<Seq<char>>, texts: Seq<Seq<char>>, n: nat) -> Seq<Seq<char>>
    decreases texts.len(),
{
    if texts.len() == 0 {
        held
    } else {
        latest(remembered(held, texts.drop_last(), n).push(texts.last()), n)
    }
}

/// However many texts are added one by one, the queue holds the latest ones of all of them, as many
/// as it has room for.
pub proof fn law_queue_keeps_latest(held: Seq<Seq<char>>, texts: Seq<Seq<char>>, n: nat)
    requires
        held.len() <= n,
    ensures
        remembered(held, texts, n) == latest(held + texts, n),
    decreases texts.len(),
{
    if texts.len() == 0 {
        assert(held + texts =~= held);
    } else {
        law_queue_keeps_latest(held, texts.drop_last(), n);
        let before = held + texts.drop_last();
        assert(held + texts =~= before.push(texts.last()));
        assert(latest(latest(before, n).push(texts.last()), n) =~= latest(
            before.push(texts.last()),
            n,
        ));
    }
}

/// A text that is added is the newest one afterwards. The others stay in their order, and the oldest
/// one is dropped exactly if the queue was full.
pub proof fn law_newest_text_is_kept(
    queue: &mut ArrayQueue<String>,
    text: String,
)
    requires
        call_ensures(remember, (queue, text), ()),
        recent(*old(queue)).len() <= recent_capacity(*old(queue)),
        recent_capacity(*old(queue)) > 0,
    ensures
        recent_capacity(*final(queue)) == recent_capacity(*old(queue)),
        recent(*final(queue)).last() == text@,
        recent(*old(queue)).len() < recent_capacity(*old(queue)) ==> recent(
            *final(queue),
        ).drop_last() == recent(*old(queue)),
        recent(*old(queue)).len() == recent_capacity(*old(queue)) ==> recent(
            *final(queue),
        ).drop_last() == recent(*old(queue)).drop_first(),
{
    let before = recent(*old(queue));
    let after = recent(*final(queue));
    if before.len() < recent_capacity(*old(queue)) {
        assert(after == before.push(text@));
        assert(after.drop_last() =~= before);
    } else {
        assert(after == before.push(text@).skip(1));
        assert(after.drop_last() =~= before.drop_first());
    }
}

/// The last entries of a history: as many as asked for or as there are, and each one in its place.
pub proof fn law_latest_are_the_last(history: Seq<Seq<char>>, n: nat)
    ensures
        history.len() <= n ==> latest(history, n) == history,
        history.len() > n ==> latest(history, n).len() == n,
        forall|i: int|
            0 <= i < n && i < history.len() ==> #[trigger] latest(history, n)[latest(
                history,
                n,
            ).len() - 1 - i] == history[history.len() - 1 - i],
{
}

} // verus!
