//! From failures of the decoder threads to notices for the clients.
use crossbeam::channel::Receiver;
use vstd::prelude::*;

use super::rpc::BridgeNotice;
use crate::audio::decode::{MidStreamFailure, MidStreamFailureKind};
use crate::channel::{self, try_recv_failure, Received};
use crate::state::DeckId;

verus! {

/// Milliseconds between two looks at the channel.
pub const DRAIN_TICK_MS: u64 = 100;

/// The deck that a letter names; deck A for every other letter, and for
/// none.
pub open spec fn deck_of(c: Option<char>) -> DeckId {
    if c == Some('B') || c == Some('b') {
        DeckId::B
    } else {
        DeckId::A
    }
}

/// The deck that a letter names.
pub fn deck_from_char(c: Option<char>) -> (r: DeckId)
    ensures
        r == deck_of(c),
{
    match c {
        Some('B') => DeckId::B,
        Some('b') => DeckId::B,
        _ => DeckId::A,
    }
}

/// A notice is the one of a failure.
pub open spec fn tells_of(notice: BridgeNotice, failure: MidStreamFailure) -> bool {
    notice matches BridgeNotice::DecodeError { deck, track_id, category, error } && {
        &&& deck == deck_of(failure.deck)
        &&& track_id@ == failure.track_id@
        &&& category@ == failure.kind.category_spec()
        &&& error@ == failure.kind.text()
    }
}

/// The looks at the channel that yield these notices: each found the failure
/// that one of them tells of, in order, and the last one found none and tells
/// whether the channel is still open. Only where there are as many notices as
/// can be counted is there no such last look.
pub open spec fn drained(
    looks: Seq<Received<MidStreamFailure>>,
    notices: Seq<BridgeNotice>,
    open: bool,
) -> bool {
    let n = notices.len() as int;
    &&& forall|i: int|
        0 <= i < n ==> ((#[trigger] looks[i]) matches Received::Item(f) && tells_of(notices[i], f))
    &&& if looks.len() == n + 1 {
        match looks[n] {
            Received::Item(_) => false,
            Received::Empty => open,
            Received::Disconnected => !open,
        }
    } else {
        looks.len() == n && n == usize::MAX && open
    }
}

/// The notice of a failure.
pub fn publish(failure: MidStreamFailure) -> (r: BridgeNotice)
    ensures
        tells_of(r, failure),
{
    let category: &str = failure.kind.category();
    let error: &str = failure.kind.message();
    BridgeNotice::DecodeError {
        deck: deck_from_char(failure.deck),
        category: category.to_owned(),
        error: error.to_owned(),
        track_id: failure.track_id,
    }
}

/// Act on one look at the channel: note a failure and look again (`None`),
/// or stop, with whether the channel is still open.
pub fn drain_step(received: Received<MidStreamFailure>, notices: &mut Vec<BridgeNotice>) -> (r: Option<bool>)
    ensures
        match received {
            Received::Item(f) => {
                &&& r is None
                &&& final(notices)@.len() == old(notices)@.len() + 1
                &&& final(notices)@.drop_last() == old(notices)@
                &&& tells_of(final(notices)@.last(), f)
            },
            Received::Empty => r == Some(true) && final(notices)@ == old(notices)@,
            Received::Disconnected => r == Some(false) && final(notices)@ == old(notices)@,
        },
{
    match received {
        Received::Item(f) => {
            let n: BridgeNotice = publish(f);
            notices.push(n);
            proof {
                assert(notices@.drop_last() =~= old(notices)@);
            }
            None
        },
        Received::Empty => Some(true),
        Received::Disconnected => Some(false),
    }
}

/// Take all failures that wait in the channel. Returns their notices, oldest
/// first, and whether the channel is still open.
pub fn drain_once(rx: &mut Receiver<MidStreamFailure>) -> (r: (Vec<BridgeNotice>, bool))
    ensures
        channel::failure_looks(*old(rx)).is_prefix_of(channel::failure_looks(*final(rx))),
        drained(
            channel::failure_looks(*final(rx)).skip(
                channel::failure_looks(*old(rx)).len() as int,
            ),
            r.0@,
            r.1,
        ),
{
    let mut notices: Vec<BridgeNotice> = Vec::new();
    let mut taken: usize = 0;
    let ghost before = channel::failure_looks(*rx);
    let ghost mut seen = Seq::<Received<MidStreamFailure>>::empty();
    assert(before + seen =~= before);
    while taken < usize::MAX
        invariant
            before == channel::failure_looks(*old(rx)),
            channel::failure_looks(*rx) == before + seen,
            seen.len() == taken,
            notices@.len() == taken,
            forall|i: int|
                0 <= i < taken ==> ((#[trigger] seen[i]) matches Received::Item(f) && tells_of(
                    notices@[i],
                    f,
                )),
        decreases usize::MAX - taken,
    {
        let ghost held = notices@;
        let ghost so_far = seen;
        let look: Received<MidStreamFailure> = try_recv_failure(rx);
        proof {
            seen = so_far.push(look);
            assert((before + so_far).push(look) =~= before + seen);
            assert((before + seen).skip(before.len() as int) =~= seen);
        }
        match drain_step(look, &mut notices) {
            Some(open) => {
                return (notices, open);
            },
            None => {},
        }
        proof {
            assert forall|i: int| 0 <= i < taken implies notices@[i] == held[i] by {
                assert(notices@.drop_last()[i] == held[i]);
            }
        }
        taken += 1;
    }
    assert((before + seen).skip(before.len() as int) =~= seen);
    (notices, true)
}

/// Deck B is named by its letter, large or small; everything else is deck A.
pub proof fn letters_name_decks(c: char)
    ensures
        deck_of(Some('A')) == DeckId::A,
        deck_of(Some('a')) == DeckId::A,
        deck_of(None) == DeckId::A,
        deck_of(Some(c)) == DeckId::B <==> c == 'B' || c == 'b',
{
}

/// The notice of a failure names the failure's deck and track, and tells its
/// class and its own text.
pub proof fn notices_tell_of_the_failure(notice: BridgeNotice, failure: MidStreamFailure)
    requires
        tells_of(notice, failure),
    ensures
        notice is DecodeError,
        notice->DecodeError_track_id@ == failure.track_id@,
        notice->DecodeError_deck == DeckId::B <==> failure.deck == Some('B') || failure.deck == Some(
            'b',
        ),
        failure.kind matches MidStreamFailureKind::DecodeFailed(t) ==> notice->DecodeError_error@
            == t@ && notice->DecodeError_category@ == "mid_stream_decode_failure"@,
        failure.kind matches MidStreamFailureKind::ResampleFailed(t) ==> notice->DecodeError_error@
            == t@ && notice->DecodeError_category@ == "mid_stream_decode_failure"@,
        failure.kind matches MidStreamFailureKind::ThreadPanic(t) ==> notice->DecodeError_error@
            == t@ && notice->DecodeError_category@ == "decoder_thread_panic"@,
{
}

/// Draining gives one notice for each failure that was found, in order, and
/// goes on until none is; then it tells whether the channel is still open.
pub proof fn drains_tell_of_every_failure(
    looks: Seq<Received<MidStreamFailure>>,
    notices: Seq<BridgeNotice>,
    open: bool,
    i: int,
)
    requires
        drained(looks, notices, open),
        notices.len() < usize::MAX,
        0 <= i < looks.len(),
    ensures
        looks.len() == notices.len() + 1,
        looks[i] is Item <==> i < notices.len(),
        looks[i] matches Received::Item(f) ==> tells_of(notices[i], f),
        looks.last() is Empty <==> open,
        looks.last() is Disconnected <==> !open,
{
}

} // verus!
