//! General properties of the contract, stated over whole command histories
//! and proved once and for all.
//!
//! A history is a sequence of commands, oldest first, each attributed to the
//! identity that submitted it, exactly as the host's ordering layer hands the
//! commands to [`crate::contract::HelloWorld::handle_command`].

use vstd::prelude::*;

use crate::types::initial_state;
use crate::types::spec_answer;
use crate::types::spec_apply;
use crate::types::CommandV;
use crate::types::Error;
use crate::types::Identity;
use crate::types::Request;
use crate::types::ResponseV;
use crate::types::StateV;
use vstd::arithmetic::div_mod::lemma_add_mod_noop;
use vstd::arithmetic::div_mod::lemma_small_mod;

verus! {

/// The state a whole history of commands leads to, starting from `s`.
pub open spec fn apply_all(s: StateV, history: Seq<(Identity, CommandV)>) -> StateV
    decreases history.len(),
{
    if history.len() == 0 {
        s
    } else {
        spec_apply(apply_all(s, history.drop_last()), history.last().0, history.last().1)
    }
}

/// The sum of all `Increment` values in a history.
pub open spec fn increment_total(history: Seq<(Identity, CommandV)>) -> int
    decreases history.len(),
{
    if history.len() == 0 {
        0
    } else {
        increment_total(history.drop_last()) + match history.last().1 {
            CommandV::Increment { value } => value as int,
            CommandV::AddFile { .. } => 0,
        }
    }
}

/// The addresses a history adds for `who`, in submission order.
pub open spec fn files_added_for(
    history: Seq<(Identity, CommandV)>,
    who: Identity,
) -> Seq<Seq<char>>
    decreases history.len(),
{
    if history.len() == 0 {
        Seq::empty()
    } else {
        let rest = files_added_for(history.drop_last(), who);
        match history.last().1 {
            CommandV::AddFile { address } => if history.last().0 == who {
                rest.push(address)
            } else {
                rest
            },
            CommandV::Increment { .. } => rest,
        }
    }
}

/// Law: after any history of commands from the initial state, the counter is
/// the sum of all `Increment` values modulo 2^32, however the increments were
/// interleaved with `AddFile` commands.
pub proof fn lemma_counter_totals_increments(history: Seq<(Identity, CommandV)>)
    ensures
        0 <= increment_total(history),
        apply_all(initial_state(), history).counter == increment_total(history) % 0x1_0000_0000,
    decreases history.len(),
{
    if history.len() == 0 {
        lemma_small_mod(0nat, 0x1_0000_0000nat);
    } else {
        lemma_counter_totals_increments(history.drop_last());
        let t = increment_total(history.drop_last());
        match history.last().1 {
            CommandV::Increment { value } => {
                lemma_add_mod_noop(t, value as int, 0x1_0000_0000int);
                lemma_small_mod(value as nat, 0x1_0000_0000nat);
            },
            CommandV::AddFile { .. } => {},
        }
    }
}

/// Law: after any history from the initial state, an identity is on record
/// exactly when the history added a file for it, and its record is then
/// exactly the addresses the history added for it, in submission order.
pub proof fn lemma_files_match_history(history: Seq<(Identity, CommandV)>, who: Identity)
    ensures
        apply_all(initial_state(), history).files.contains_key(who) <==> files_added_for(
            history,
            who,
        ).len() > 0,
        apply_all(initial_state(), history).files.contains_key(who) ==> apply_all(
            initial_state(),
            history,
        ).files[who] == files_added_for(history, who),
    decreases history.len(),
{
    if history.len() > 0 {
        lemma_files_match_history(history.drop_last(), who);
        let prev = apply_all(initial_state(), history.drop_last());
        match history.last().1 {
            CommandV::AddFile { address } => {
                if history.last().0 == who && !prev.files.contains_key(who) {
                    assert(files_added_for(history.drop_last(), who) =~= Seq::empty());
                }
            },
            CommandV::Increment { .. } => {},
        }
    }
}

/// Law: `GetFiles` asked with an origin that the history added files for
/// returns exactly those addresses, in submission order.
pub proof fn lemma_get_files_reports_history(history: Seq<(Identity, CommandV)>, who: Identity)
    requires
        files_added_for(history, who).len() > 0,
    ensures
        spec_answer(apply_all(initial_state(), history), Some(who), Request::GetFiles) == (
        ResponseV::GetFiles { file: files_added_for(history, who) }),
{
    lemma_files_match_history(history, who);
}

/// Law: `GetFiles` asked with an identity that no command in the history
/// added a file for answers `Error(NotAuthorized)`.
pub proof fn lemma_get_files_unknown_identity(history: Seq<(Identity, CommandV)>, who: Identity)
    requires
        files_added_for(history, who).len() == 0,
    ensures
        spec_answer(apply_all(initial_state(), history), Some(who), Request::GetFiles)
            == ResponseV::Error(Error::NotAuthorized),
{
    lemma_files_match_history(history, who);
}

/// Law: `GetCount` never depends on the origin: any two origins, present or
/// absent, get the same answer from the same state.  Because the answer is a
/// function of the state alone and queries take the state by shared
/// reference, repeated queries with no intervening command return identical
/// results.
pub proof fn lemma_get_count_ignores_origin(s: StateV, o1: Option<Identity>, o2: Option<Identity>)
    ensures
        spec_answer(s, o1, Request::GetCount) == spec_answer(s, o2, Request::GetCount),
{
}

/// Law: an identity is only inserted on its first file addition, so every
/// identity on record has a non-empty record.
pub proof fn lemma_records_nonempty(history: Seq<(Identity, CommandV)>, who: Identity)
    ensures
        apply_all(initial_state(), history).files.contains_key(who) ==> apply_all(
            initial_state(),
            history,
        ).files[who].len() > 0,
{
    lemma_files_match_history(history, who);
}

} // verus!
