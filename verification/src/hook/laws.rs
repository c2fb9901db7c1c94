//! Properties of the hook and of its buffer.
use vstd::prelude::*;

use crate::hook::BufferState;
use crate::hook::HookState;
use crate::hook::Removal;
use crate::hook::StatusFacts;
use crate::hook::{HOOKED, MAX_FAILURES, MAX_OBJECTS, SIGNATURE};
use crate::numeral;
use crate::scan::signature;
use crate::scan::Outcome;

verus! {

/// One word of two characters in front of a text.
proof fn lemma_first_word(s: Seq<char>)
    requires
        s.len() > 3,
        !signature::blank(s[0]),
        !signature::blank(s[1]),
        s[2] == ' ',
    ensures
        signature::words(s) == seq![seq![s[0], s[1]]] + signature::words(s.skip(3)),
{
    reveal_with_fuel(signature::word_len, 3);
    assert(s.skip(1)[0] == s[1]);
    assert(s.skip(1).skip(1)[0] == s[2]);
    assert(signature::word_len(s) == 2);
    assert(s.take(2) =~= seq![s[0], s[1]]);
    assert(s.skip(2)[0] == ' ');
    assert(s.skip(2).skip(1) =~= s.skip(3));
    assert(signature::words(s.skip(2)) == signature::words(s.skip(3)));
}

/// A text that is one word of two characters.
proof fn lemma_only_word(s: Seq<char>)
    requires
        s.len() == 2,
        !signature::blank(s[0]),
        !signature::blank(s[1]),
    ensures
        signature::words(s) == seq![s],
{
    reveal_with_fuel(signature::word_len, 3);
    reveal_with_fuel(signature::words, 2);
    assert(s.skip(1)[0] == s[1]);
    assert(s.skip(1).skip(1).len() == 0);
    assert(signature::word_len(s) == 2);
    assert(s.take(2) =~= s);
    assert(signature::words(s) =~= seq![s]);
}

/// The byte that two digits stand for.
proof fn lemma_two_digits(a: char, b: char)
    requires
        signature::digit_value(a) is Some,
        signature::digit_value(b) is Some,
    ensures
        signature::element(seq![a, b]) == Some(
            Some((16 * signature::digit_value(a)->Some_0 + signature::digit_value(b)->Some_0) as u8),
        ),
{
    let w = seq![a, b];
    reveal_with_fuel(signature::hex_number, 3);
    assert(w[0] != '?');
    assert(signature::unsigned(w) == w);
    assert(w.drop_last() =~= seq![a]);
    assert(w.drop_last().drop_last() =~= seq![]);
}

/// The signature is well formed and stands for the nine bytes of the three
/// instructions.
pub proof fn law_signature()
    ensures
        signature::parsed(SIGNATURE@) == Some(
            seq![
                Some(0x83u8),
                Some(0xC1u8),
                Some(0x0Cu8),
                Some(0x8Bu8),
                Some(0xC1u8),
                Some(0xD9u8),
                Some(0x44u8),
                Some(0x24u8),
                Some(0x04u8),
            ],
        ),
{
    reveal_strlit("83 C1 0C 8B C1 D9 44 24 04");
    let s0 = SIGNATURE@;
    assert(s0.len() == 26);
    let s1 = s0.skip(3);
    let s2 = s1.skip(3);
    let s3 = s2.skip(3);
    let s4 = s3.skip(3);
    let s5 = s4.skip(3);
    let s6 = s5.skip(3);
    let s7 = s6.skip(3);
    let s8 = s7.skip(3);
    lemma_first_word(s0);
    lemma_first_word(s1);
    lemma_first_word(s2);
    lemma_first_word(s3);
    lemma_first_word(s4);
    lemma_first_word(s5);
    lemma_first_word(s6);
    lemma_first_word(s7);
    lemma_only_word(s8);
    assert(s8 =~= seq!['0', '4']);
    let all = seq![
        seq!['8', '3'],
        seq!['C', '1'],
        seq!['0', 'C'],
        seq!['8', 'B'],
        seq!['C', '1'],
        seq!['D', '9'],
        seq!['4', '4'],
        seq!['2', '4'],
        seq!['0', '4'],
    ];
    assert(signature::words(s0) =~= all);
    lemma_two_digits('8', '3');
    lemma_two_digits('C', '1');
    lemma_two_digits('0', 'C');
    lemma_two_digits('8', 'B');
    lemma_two_digits('D', '9');
    lemma_two_digits('4', '4');
    lemma_two_digits('2', '4');
    lemma_two_digits('0', '4');
    let elements = all.map_values(|w: Seq<char>| signature::element(w));
    assert(!elements.contains(None)) by {
        assert forall|i: int| 0 <= i < elements.len() implies elements[i] is Some by {}
    }
    assert(elements.map_values(|e: Option<Option<u8>>| e->Some_0) =~= seq![
        Some(0x83u8),
        Some(0xC1u8),
        Some(0x0Cu8),
        Some(0x8Bu8),
        Some(0xC1u8),
        Some(0xD9u8),
        Some(0x44u8),
        Some(0x24u8),
        Some(0x04u8),
    ]);
}

/// An active hook has a trampoline to pass control to.
pub open spec fn sound(state: HookState) -> bool {
    state.installed ==> state.original != 0
}

/// No step ever leaves an active hook without a trampoline. A hook is only
/// enabled after its trampoline was published, and the trampoline is only
/// forgotten when no hook is active.
pub proof fn law_active_hook_has_trampoline(
    state: HookState,
    code: i32,
    trampoline: usize,
    address: usize,
    reason: StatusFacts,
    outcome: Outcome,
)
    requires
        sound(state),
    ensures
        sound(HookState::start()),
        sound(state.spawned()),
        sound(HookState { failures: 0, ..state }),
        sound(HookState { scanning: false, ..state }),
        sound(state.searching()),
        sound(state.failed(reason)),
        sound(state.searched(outcome)),
        sound(state.created(code, trampoline)),
        code == HOOKED && trampoline != 0 ==> state.created(code, trampoline).original
            == trampoline && sound(state.created(code, trampoline).enabled(address, code)),
        code != HOOKED && !state.installed ==> sound(state.enabled(address, code)),
        sound(state.leaving()),
        !state.leaving().installed,
        sound(state.leaving().left()),
{
}

/// Whatever state it is in, an installed hook is left exactly as it was before
/// its installation, but for the counters.
pub proof fn law_uninstall_undoes_install(state: HookState, trampoline: usize, address: usize)
    requires
        !state.installed,
        state.target == 0,
        state.original == 0,
        trampoline != 0,
    ensures
        ({
            let active = state.created(HOOKED, trampoline).enabled(address, HOOKED);
            &&& active.installed
            &&& active.target == address
            &&& active.original == trampoline
            &&& active.removal() == (if address == 0 {
                Removal::Forget
            } else {
                Removal::Unhook(address)
            })
            &&& active.leaving().left() == (HookState { status: StatusFacts::Idle, ..state })
        }),
{
}

/// A removed hook stays removed: nothing is left of it, and removing it again
/// asks for nothing and changes nothing.
pub proof fn law_second_uninstall_does_nothing(state: HookState, buffer: BufferState)
    ensures
        ({
            let after = state.leaving().left();
            &&& !after.installed
            &&& after.original == 0
            &&& after.status == StatusFacts::Idle
            &&& after.removal() == Removal::Nothing
            &&& after.leaving() == after
            &&& state.installed ==> after.target == 0
            &&& buffer.emptied().count == 0
            &&& buffer.emptied().emptied() == buffer.emptied()
        }),
{
}

/// That nothing was found is no failure, however often it happens.
pub proof fn law_not_found_is_no_failure(state: HookState)
    requires
        state.retries(),
    ensures
        state.searched(Outcome::NotFound).retries(),
        state.searched(Outcome::NotFound).failures == state.failures,
{
}

/// After enough failures the attempts end, and only a forced one begins again.
pub proof fn law_attempts_end(state: HookState, reason: StatusFacts)
    requires
        !state.installed,
        state.failures == MAX_FAILURES - 1,
    ensures
        ({
            let after = state.failed(reason);
            &&& after.status == StatusFacts::GaveUp
            &&& !after.retries()
            &&& !after.ready()
            &&& after.spawned() == after
            &&& (HookState { failures: 0, ..after }).retries()
        }),
{
}

/// At most one attempt is under way at any time.
pub proof fn law_one_attempt_at_a_time(state: HookState)
    requires
        state.ready(),
    ensures
        state.spawned().scanning,
        !state.spawned().ready(),
        state.spawned().searching().scanning,
{
}

/// The buffer after calls of the detour, one after the other.
pub open spec fn recorded_all(buffer: BufferState, calls: Seq<usize>) -> BufferState
    decreases calls.len(),
{
    if calls.len() == 0 {
        buffer
    } else {
        recorded_all(buffer, calls.drop_last()).recorded(calls.last())
    }
}

proof fn lemma_recorded(buffer: BufferState, calls: Seq<usize>)
    requires
        buffer.count == 0,
        calls.len() <= usize::MAX,
    ensures
        recorded_all(buffer, calls).slots.len() == buffer.slots.len(),
        recorded_all(buffer, calls).count == calls.len(),
        recorded_all(buffer, calls).used() == (if calls.len() < buffer.slots.len() {
            calls
        } else {
            calls.take(buffer.slots.len() as int)
        }),
    decreases calls.len(),
{
    let after = recorded_all(buffer, calls);
    if calls.len() == 0 {
        assert(after.used() =~= calls);
    } else {
        let head = calls.drop_last();
        let before = recorded_all(buffer, head);
        lemma_recorded(buffer, head);
        let n = buffer.slots.len();
        if calls.len() < n {
            assert(after.used() =~= before.used().push(calls.last()));
            assert(head.push(calls.last()) =~= calls);
        } else if calls.len() == n {
            assert(after.used() =~= before.used().push(calls.last()));
            assert(head.push(calls.last()) =~= calls.take(n as int));
        } else {
            assert(after.used() =~= before.used());
            assert(head.take(n as int) =~= calls.take(n as int));
        }
    }
}

/// Calls of the detour come out in their order. Those beyond the capacity are
/// dropped, and nothing is ever written outside the buffer.
pub proof fn law_calls_come_out_in_order(buffer: BufferState, calls: Seq<usize>)
    requires
        buffer.count == 0,
        calls.len() <= usize::MAX,
        forall|i: int| 0 <= i < calls.len() ==> #[trigger] calls[i] != 0,
    ensures
        recorded_all(buffer, calls).slots.len() == buffer.slots.len(),
        recorded_all(buffer, calls).objects() == (if calls.len() < buffer.slots.len() {
            calls
        } else {
            calls.take(buffer.slots.len() as int)
        }),
{
    lemma_recorded(buffer, calls);
    let used = recorded_all(buffer, calls).used();
    lemma_filter_all(used);
}

proof fn lemma_filter_all(s: Seq<usize>)
    requires
        forall|i: int| 0 <= i < s.len() ==> #[trigger] s[i] != 0,
    ensures
        s.filter(|p: usize| p != 0) == s,
    decreases s.len(),
{
    reveal(Seq::filter);
    if s.len() > 0 {
        assert forall|i: int| 0 <= i < s.drop_last().len() implies #[trigger] s.drop_last()[i]
            != 0 by {
            assert(s.drop_last()[i] == s[i]);
        }
        lemma_filter_all(s.drop_last());
        assert(s[s.len() - 1] != 0);
        assert(s.drop_last().push(s.last()) =~= s);
    } else {
        assert(s.filter(|p: usize| p != 0) =~= s);
    }
}

/// A buffer that was emptied gives nothing until the next call.
pub proof fn law_emptied_buffer_is_empty(buffer: BufferState)
    ensures
        buffer.emptied().objects().len() == 0,
{
    reveal(Seq::filter);
    assert(buffer.emptied().used() =~= seq![]);
}

proof fn lemma_filter_shortens(s: Seq<usize>)
    ensures
        s.filter(|p: usize| p != 0).len() <= s.len(),
    decreases s.len(),
{
    reveal(Seq::filter);
    if s.len() > 0 {
        lemma_filter_shortens(s.drop_last());
    }
}

/// No step changes the capacity of a buffer, and a buffer never gives more
/// objects than its capacity, whatever its counter says.
pub proof fn law_buffer_is_bounded(buffer: BufferState, this: usize)
    ensures
        buffer.recorded(this).slots.len() == buffer.slots.len(),
        buffer.emptied().slots.len() == buffer.slots.len(),
        buffer.objects().len() <= buffer.slots.len(),
{
    lemma_filter_shortens(buffer.used());
}

/// A buffer that began empty never gives more than [`MAX_OBJECTS`] objects,
/// however many calls there were.
pub proof fn law_objects_are_bounded(calls: Seq<usize>)
    ensures
        ({
            let fresh = BufferState {
                slots: Seq::new(MAX_OBJECTS as nat, |i: int| 0usize),
                count: 0,
            };
            &&& recorded_all(fresh, calls).slots.len() == MAX_OBJECTS
            &&& recorded_all(fresh, calls).objects().len() <= MAX_OBJECTS
            &&& recorded_all(fresh, calls).slots.len() == 256
        }),
    decreases calls.len(),
{
    let fresh = BufferState { slots: Seq::new(MAX_OBJECTS as nat, |i: int| 0usize), count: 0 };
    if calls.len() > 0 {
        law_objects_are_bounded(calls.drop_last());
        law_buffer_is_bounded(recorded_all(fresh, calls.drop_last()), calls.last());
    }
    law_buffer_is_bounded(recorded_all(fresh, calls), 0);
}

/// A failure is counted once and changes nothing else but the status: that shows
/// the reason, and from the fifth failure on that there is no further attempt.
pub proof fn law_failure(state: HookState, reason: StatusFacts)
    requires
        state.failures < u32::MAX,
    ensures
        ({
            let next = state.failed(reason);
            &&& next.failures == state.failures + 1
            &&& next.failures < 5 ==> next.status == reason
            &&& next.failures >= 5 ==> next.status == StatusFacts::GaveUp
            &&& next.installed == state.installed
            &&& next.scanning == state.scanning
            &&& next.attempts == state.attempts
            &&& next.target == state.target
            &&& next.original == state.original
        }),
{
}

/// An attempt begins exactly if no hook is active, fewer than five failures were
/// counted and none is under way.
pub proof fn law_attempt_begins(state: HookState)
    ensures
        state.retries() <==> !state.installed && state.failures < 5,
        state.ready() <==> !state.installed && state.failures < 5 && !state.scanning,
        ({
            let next = state.spawned();
            &&& next.scanning <==> state.scanning || (!state.installed && state.failures < 5)
            &&& !state.installed && state.failures >= 5 ==> next.status == StatusFacts::GaveUp
            &&& state.installed || state.failures < 5 ==> next.status == state.status
            &&& next.installed == state.installed
            &&& next.attempts == state.attempts
            &&& next.failures == state.failures
            &&& next.target == state.target
            &&& next.original == state.original
        }),
{
}

/// An attempt is counted when it begins to search, and only its number and the
/// status change.
pub proof fn law_attempt_is_counted(state: HookState)
    ensures
        ({
            let next = state.searching();
            &&& state.attempts < u32::MAX ==> next.attempts == state.attempts + 1
            &&& state.attempts == u32::MAX ==> next.attempts == 0
            &&& next.status == StatusFacts::Scanning
            &&& next.installed == state.installed
            &&& next.scanning == state.scanning
            &&& next.failures == state.failures
            &&& next.target == state.target
            &&& next.original == state.original
        }),
{
}

/// Of the outcomes of a search only an ambiguous one is a failure, and it is
/// reported with the number of matches.
pub proof fn law_outcome_of_a_search(state: HookState, outcome: Outcome)
    requires
        state.failures < 4,
    ensures
        ({
            let next = state.searched(outcome);
            &&& outcome is Unique ==> next == state
            &&& outcome is NotFound ==> next.status == StatusFacts::NotFound && next.failures
                == state.failures
            &&& outcome matches Outcome::Ambiguous(all) ==> next.status == StatusFacts::Ambiguous(
                all@.len() as usize,
            ) && next.failures == state.failures + 1
            &&& next.installed == state.installed
            &&& next.scanning == state.scanning
            &&& next.attempts == state.attempts
            &&& next.target == state.target
            &&& next.original == state.original
        }),
{
}

/// A hook is created exactly if the library returned 0 and a trampoline; then the
/// trampoline is published and nothing else changes. Otherwise the failure is
/// counted and no trampoline is published.
pub proof fn law_creation(state: HookState, status: i32, trampoline: usize)
    requires
        state.failures < 4,
    ensures
        ({
            let next = state.created(status, trampoline);
            let created = status == 0 && trampoline != 0;
            &&& next.original == (if created {
                trampoline
            } else {
                state.original
            })
            &&& next.failures == (if created {
                state.failures as int
            } else {
                state.failures + 1
            })
            &&& created ==> next.status == state.status
            &&& !created ==> next.status is Failed
            &&& status != 0 ==> next.status == StatusFacts::Failed(
                "MH_CreateHook: "@ + numeral::signed(status as int),
            )
            &&& next.installed == state.installed
            &&& next.scanning == state.scanning
            &&& next.attempts == state.attempts
            &&& next.target == state.target
        }),
{
}

/// A hook is active exactly if the library returned 0, and its address is the one
/// that was enabled. Otherwise the failure is counted and the trampoline forgotten.
pub proof fn law_enabling(state: HookState, address: usize, status: i32)
    requires
        state.failures < 4,
        !state.installed,
    ensures
        ({
            let next = state.enabled(address, status);
            &&& next.installed <==> status == 0
            &&& status == 0 ==> {
                &&& next.status == StatusFacts::Installed
                &&& next.target == address
                &&& next.original == state.original
                &&& next.failures == state.failures
            }
            &&& status != 0 ==> {
                &&& next.status == StatusFacts::Failed(
                    "MH_EnableHook: "@ + numeral::signed(status as int),
                )
                &&& next.target == state.target
                &&& next.original == 0
                &&& next.failures == state.failures + 1
            }
            &&& next.scanning == state.scanning
            &&& next.attempts == state.attempts
        }),
{
}

/// Removing an active hook unhooks the address that was enabled; the trampoline
/// stays until the hook is gone, and then nothing of it is left.
pub proof fn law_removal(state: HookState)
    ensures
        state.installed && state.target != 0 ==> state.removal() == Removal::Unhook(state.target),
        state.installed && state.target == 0 ==> state.removal() == Removal::Forget,
        !state.installed ==> state.removal() == Removal::Nothing && state.leaving() == state,
        !state.leaving().installed,
        state.installed ==> state.leaving().target == 0,
        state.leaving().original == state.original,
        state.leaving().status == state.status,
        state.leaving().failures == state.failures,
        state.leaving().attempts == state.attempts,
        state.leaving().scanning == state.scanning,
        state.left().original == 0,
        state.left().status == StatusFacts::Idle,
        state.left().installed == state.installed,
        state.left().failures == state.failures,
        state.left().attempts == state.attempts,
        state.left().scanning == state.scanning,
{
}

/// One call of the detour: while there is room it stands in the next slot, and
/// all other slots keep what they hold.
pub proof fn law_call_takes_the_next_slot(buffer: BufferState, this: usize)
    ensures
        ({
            let next = buffer.recorded(this);
            &&& next.slots.len() == buffer.slots.len()
            &&& buffer.count < buffer.slots.len() ==> next.slots[buffer.count as int] == this
            &&& forall|i: int|
                0 <= i < buffer.slots.len() && i != buffer.count ==> #[trigger] next.slots[i]
                    == buffer.slots[i]
            &&& buffer.count < usize::MAX ==> next.count == buffer.count + 1
            &&& buffer.count == usize::MAX ==> next.count == 0
        }),
{
}

proof fn lemma_nonzero(s: Seq<usize>) -> (places: Seq<int>)
    ensures
        places.len() == s.filter(|p: usize| p != 0).len(),
        forall|i: int|
            0 <= i < places.len() ==> 0 <= #[trigger] places[i] < s.len() && s[places[i]]
                == s.filter(|p: usize| p != 0)[i] && s[places[i]] != 0,
        forall|i: int, j: int| 0 <= i < j < places.len() ==> places[i] < places[j],
        forall|k: int| 0 <= k < s.len() && #[trigger] s[k] != 0 ==> places.contains(k),
    decreases s.len(),
{
    reveal(Seq::filter);
    if s.len() == 0 {
        seq![]
    } else {
        let rest = s.drop_last();
        let head = lemma_nonzero(rest);
        let places = if s.last() != 0 {
            head.push(s.len() - 1)
        } else {
            head
        };
        assert forall|i: int| 0 <= i < places.len() implies 0 <= #[trigger] places[i] < s.len()
            && s[places[i]] == s.filter(|p: usize| p != 0)[i] && s[places[i]] != 0 by {
            if i < head.len() {
                assert(places[i] == head[i]);
                assert(rest[head[i]] == s[head[i]]);
            }
        }
        assert forall|k: int| 0 <= k < s.len() && #[trigger] s[k] != 0 implies places.contains(
            k,
        ) by {
            if k < rest.len() {
                assert(rest[k] == s[k]);
                let i = choose|i: int| 0 <= i < head.len() && head[i] == k;
                assert(places[i] == k);
            } else {
                assert(places[places.len() - 1] == k);
            }
        }
        places
    }
}

/// The objects of a buffer: what stands in the slots that were filled, in their
/// order, except the zeros, and nothing else.
pub proof fn law_objects(buffer: BufferState) -> (places: Seq<int>)
    ensures
        ({
            let objects = buffer.objects();
            let filled = if buffer.count < buffer.slots.len() {
                buffer.count as int
            } else {
                buffer.slots.len() as int
            };
            &&& places.len() == objects.len()
            &&& forall|i: int|
                0 <= i < places.len() ==> 0 <= #[trigger] places[i] < filled
                    && buffer.slots[places[i]] == objects[i] && objects[i] != 0
            &&& forall|i: int, j: int| 0 <= i < j < places.len() ==> places[i] < places[j]
            &&& forall|k: int|
                0 <= k < filled && #[trigger] buffer.slots[k] != 0 ==> places.contains(k)
        }),
{
    let used = buffer.used();
    let places = lemma_nonzero(used);
    assert forall|k: int| 0 <= k < used.len() && #[trigger] buffer.slots[k] != 0 implies places.contains(
    k) by {
        assert(used[k] == buffer.slots[k]);
    }
    places
}

} // verus!
