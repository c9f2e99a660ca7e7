//! Deciding whether an order can be marked, and with which event.

use vstd::prelude::*;
use crate::auth::AuthError;
use crate::text::str_eq;

verus! {

/// The flags a client marks an order with.
#[derive(Debug, Clone, Copy, PartialEq, Eq)]
pub struct WebModel {
    pub processed: bool,
    pub rejected: bool,
}

/// Why an order cannot be marked.
#[derive(Debug, Clone, Copy, PartialEq, Eq)]
pub enum MarkError {
    /// Neither flag is set (400).
    NoFlagSet,
    /// There is no order to mark (400).
    OrderNotFound,
    /// The caller does not own the order's frame (401).
    NotOwner,
}

impl MarkError {
    /// The message a refused request is answered with.
    pub fn message(&self) -> (m: String)
        ensures
            m@ == match self {
                MarkError::NoFlagSet => "One of the flags should be set."@,
                MarkError::OrderNotFound => "Order not found."@,
                MarkError::NotOwner => "You need to be the owner of the frame in order to mark its orders."@,
            },
    {
        match self {
            MarkError::NoFlagSet => "One of the flags should be set.".to_owned(),
            MarkError::OrderNotFound => "Order not found.".to_owned(),
            MarkError::NotOwner => "You need to be the owner of the frame in order to mark its orders.".to_owned(),
        }
    }
}

impl WebModel {
    /// At least one flag must be set.
    pub fn check_flags(&self) -> (r: Result<(), MarkError>)
        ensures
            r == if !self.processed && !self.rejected {
                Err::<(), MarkError>(MarkError::NoFlagSet)
            } else {
                Ok::<(), MarkError>(())
            },
    {
        if !self.processed && !self.rejected {
            Err(MarkError::NoFlagSet)
        } else {
            Ok(())
        }
    }

    /// The event the marking records: processing wins over rejection.
    pub fn event_type(&self) -> (t: String)
        ensures
            t@ == if self.processed {
                "OrderProcessed"@
            } else {
                "OrderRejected"@
            },
    {
        if self.processed {
            "OrderProcessed".to_owned()
        } else {
            "OrderRejected".to_owned()
        }
    }
}

/// Only the owner of the order found may mark it.
pub fn check_owner(stored_owner: Option<String>, user_id: &str) -> (r: Result<(), MarkError>)
    ensures
        r == match stored_owner {
            None => Err::<(), MarkError>(MarkError::OrderNotFound),
            Some(o) => if o@ == user_id@ {
                Ok::<(), MarkError>(())
            } else {
                Err::<(), MarkError>(MarkError::NotOwner)
            },
        },
{
    match stored_owner {
        None => Err(MarkError::OrderNotFound),
        Some(o) => if str_eq(o.as_str(), user_id) {
            Ok(())
        } else {
            Err(MarkError::NotOwner)
        },
    }
}

/// Where a marking request stands.
pub enum MarkStage {
    /// Nothing received yet.
    Start,
    /// The caller's token is being decoded.
    AwaitClaims { order_id: String, flags: WebModel },
    /// The owner of the stored order is being read.
    AwaitOwner { order_id: String, flags: WebModel, user_id: String },
    /// The marking event is being written.
    AwaitWrite,
    /// The request has been answered.
    Done,
}

/// What the handler hands back to the marking decisions.
pub enum MarkInput {
    /// The request: the order's id, the flags, and the token its
    /// `Authorization` header carries (as `auth_token` reads it).
    Request { order_id: String, flags: WebModel, auth: Result<String, AuthError> },
    /// The id in the decoded token, or why the token could not be decoded.
    Claims(Result<String, String>),
    /// The owner of the first stored order, if there is one.
    Owner(Option<String>),
    /// The event was written.
    Written,
}

/// Why a marking request is refused.
pub enum MarkRefusal {
    Mark(MarkError),
    Auth(AuthError),
    /// The token could not be decoded (400).
    Token(String),
}

impl MarkRefusal {
    /// The status the refusal is answered with.
    pub fn status(&self) -> (c: u16)
        ensures
            c == match self {
                MarkRefusal::Mark(MarkError::NotOwner) => 401u16,
                MarkRefusal::Auth(AuthError::Missing) => 401u16,
                _ => 400u16,
            },
    {
        match self {
            MarkRefusal::Mark(MarkError::NotOwner) => 401,
            MarkRefusal::Auth(e) => e.status(),
            _ => 400,
        }
    }

    /// The message the refusal is answered with.
    pub fn message(&self) -> (m: String)
        ensures
            match self {
                MarkRefusal::Mark(MarkError::NoFlagSet) => m@ == "One of the flags should be set."@,
                MarkRefusal::Mark(MarkError::OrderNotFound) => m@ == "Order not found."@,
                MarkRefusal::Mark(MarkError::NotOwner) => m@
                    == "You need to be the owner of the frame in order to mark its orders."@,
                MarkRefusal::Auth(AuthError::Missing) => m@ == "Auth required."@,
                MarkRefusal::Auth(AuthError::NotText) => m@ == "failed to convert header to a str"@,
                MarkRefusal::Token(e) => m == e,
            },
    {
        match self {
            MarkRefusal::Mark(e) => e.message(),
            MarkRefusal::Auth(e) => e.message(),
            MarkRefusal::Token(e) => e.clone(),
        }
    }
}

/// What the handler is to do next.
pub enum MarkOutput {
    /// Answer with the refusal; nothing has been written.
    Refuse(MarkRefusal),
    /// Decode the token.
    DecodeToken(String),
    /// Read the owner of the stored order.
    ReadOwner,
    /// Write the event `flags.event_type()` for the order.
    WriteEvent { order_id: String, flags: WebModel },
    /// Answer that the order was marked.
    Respond,
    /// Nothing: the input does not belong to this stage.
    Nothing,
}

/// The marking decisions: the flags are checked first, then the token, then
/// the owner, and only then is the event written.
pub open spec fn mark_transition(stage: MarkStage, input: MarkInput) -> (MarkStage, MarkOutput) {
    match (stage, input) {
        (MarkStage::Start, MarkInput::Request { order_id, flags, auth }) => {
            if !flags.processed && !flags.rejected {
                (MarkStage::Done, MarkOutput::Refuse(MarkRefusal::Mark(MarkError::NoFlagSet)))
            } else {
                match auth {
                    Err(e) => (MarkStage::Done, MarkOutput::Refuse(MarkRefusal::Auth(e))),
                    Ok(t) => (MarkStage::AwaitClaims { order_id, flags }, MarkOutput::DecodeToken(t)),
                }
            }
        },
        (MarkStage::AwaitClaims { order_id, flags }, MarkInput::Claims(c)) => match c {
            Err(e) => (MarkStage::Done, MarkOutput::Refuse(MarkRefusal::Token(e))),
            Ok(u) => (MarkStage::AwaitOwner { order_id, flags, user_id: u }, MarkOutput::ReadOwner),
        },
        (MarkStage::AwaitOwner { order_id, flags, user_id }, MarkInput::Owner(o)) => match o {
            None => (MarkStage::Done, MarkOutput::Refuse(MarkRefusal::Mark(MarkError::OrderNotFound))),
            Some(x) => if x@ == user_id@ {
                (MarkStage::AwaitWrite, MarkOutput::WriteEvent { order_id, flags })
            } else {
                (MarkStage::Done, MarkOutput::Refuse(MarkRefusal::Mark(MarkError::NotOwner)))
            },
        },
        (MarkStage::AwaitWrite, MarkInput::Written) => (MarkStage::Done, MarkOutput::Respond),
        (s, _) => (s, MarkOutput::Nothing),
    }
}

/// One step of a marking request.
pub fn mark_step(stage: MarkStage, input: MarkInput) -> (r: (MarkStage, MarkOutput))
    ensures
        r == mark_transition(stage, input),
{
    match (stage, input) {
        (MarkStage::Start, MarkInput::Request { order_id, flags, auth }) => {
            match flags.check_flags() {
                Err(e) => (MarkStage::Done, MarkOutput::Refuse(MarkRefusal::Mark(e))),
                Ok(()) => match auth {
                    Err(e) => (MarkStage::Done, MarkOutput::Refuse(MarkRefusal::Auth(e))),
                    Ok(t) => (MarkStage::AwaitClaims { order_id, flags }, MarkOutput::DecodeToken(t)),
                },
            }
        },
        (MarkStage::AwaitClaims { order_id, flags }, MarkInput::Claims(c)) => match c {
            Err(e) => (MarkStage::Done, MarkOutput::Refuse(MarkRefusal::Token(e))),
            Ok(u) => (MarkStage::AwaitOwner { order_id, flags, user_id: u }, MarkOutput::ReadOwner),
        },
        (MarkStage::AwaitOwner { order_id, flags, user_id }, MarkInput::Owner(o)) => {
            match check_owner(o, user_id.as_str()) {
                Err(e) => (MarkStage::Done, MarkOutput::Refuse(MarkRefusal::Mark(e))),
                Ok(()) => (MarkStage::AwaitWrite, MarkOutput::WriteEvent { order_id, flags }),
            }
        },
        (MarkStage::AwaitWrite, MarkInput::Written) => (MarkStage::Done, MarkOutput::Respond),
        (s, _) => (s, MarkOutput::Nothing),
    }
}

/// The stage reached and the outputs given when `inputs` are handed to the
/// decisions one after another, from `stage`.
pub open spec fn mark_run(stage: MarkStage, inputs: Seq<MarkInput>) -> (MarkStage, Seq<MarkOutput>)
    decreases inputs.len(),
{
    if inputs.len() == 0 {
        (stage, Seq::empty())
    } else {
        let (s, outs) = mark_run(stage, inputs.drop_last());
        let (next, out) = mark_transition(s, inputs.last());
        (next, outs.push(out))
    }
}

/// An output that answers the request.
pub open spec fn answers(out: MarkOutput) -> bool {
    out is Refuse || out is Respond
}

/// The input is a decoded token naming the user `id`.
pub open spec fn claims_user(input: MarkInput, id: Seq<char>) -> bool {
    input matches MarkInput::Claims(Ok(u)) && u@ == id
}

/// The flags name an event: at least one is set.
pub open spec fn some_flag(flags: WebModel) -> bool {
    flags.processed || flags.rejected
}

/// The input is a request to mark `order_id` with `flags`.
pub open spec fn requests_marking(input: MarkInput, order_id: String, flags: WebModel) -> bool {
    input matches MarkInput::Request { order_id: o, flags: f, .. } && o == order_id && f == flags
}

/// What every stage reached from the start keeps of the inputs so far.
pub open spec fn mark_stage_ok(stage: MarkStage, inputs: Seq<MarkInput>) -> bool {
    match stage {
        MarkStage::AwaitClaims { order_id, flags } => some_flag(flags)
            && exists|i: int| 0 <= i < inputs.len() && requests_marking(#[trigger] inputs[i], order_id, flags),
        MarkStage::AwaitOwner { order_id, flags, user_id } => some_flag(flags)
            && (exists|i: int| 0 <= i < inputs.len() && claims_user(#[trigger] inputs[i], user_id@))
            && exists|i: int| 0 <= i < inputs.len() && requests_marking(#[trigger] inputs[i], order_id, flags),
        _ => true,
    }
}

proof fn lemma_mark_run(inputs: Seq<MarkInput>)
    ensures
        mark_run(MarkStage::Start, inputs).1.len() == inputs.len(),
        mark_stage_ok(mark_run(MarkStage::Start, inputs).0, inputs),
        (exists|i: int| 0 <= i < inputs.len() && answers(#[trigger] mark_run(MarkStage::Start, inputs).1[i]))
            ==> mark_run(MarkStage::Start, inputs).0 is Done,
        (exists|i: int| 0 <= i < inputs.len() && (#[trigger] mark_run(MarkStage::Start, inputs).1[i]) is WriteEvent)
            ==> (mark_run(MarkStage::Start, inputs).0 is AwaitWrite || mark_run(MarkStage::Start, inputs).0 is Done),
        forall|i: int, j: int|
            0 <= i < j < inputs.len() && answers(#[trigger] mark_run(MarkStage::Start, inputs).1[i])
                ==> (#[trigger] mark_run(MarkStage::Start, inputs).1[j]) is Nothing,
        forall|i: int, j: int|
            0 <= i < j < inputs.len() && (#[trigger] mark_run(MarkStage::Start, inputs).1[i]) is WriteEvent
                ==> !((#[trigger] mark_run(MarkStage::Start, inputs).1[j]) is Refuse),
        forall|j: int|
            0 <= j < inputs.len() ==> match #[trigger] mark_run(MarkStage::Start, inputs).1[j] {
                MarkOutput::WriteEvent { flags, .. } => some_flag(flags) && (inputs[j] matches MarkInput::Owner(Some(x))
                    && exists|i: int| 0 <= i < j && claims_user(#[trigger] inputs[i], x@)),
                _ => true,
            },
        forall|j: int|
            0 <= j < inputs.len() ==> match #[trigger] mark_run(MarkStage::Start, inputs).1[j] {
                MarkOutput::WriteEvent { order_id, flags } => exists|i: int|
                    0 <= i < j && requests_marking(#[trigger] inputs[i], order_id, flags),
                _ => true,
            },
    decreases inputs.len(),
{
    if inputs.len() > 0 {
        let init = inputs.drop_last();
        let n = inputs.len() - 1;
        lemma_mark_run(init);
        let (s, outs) = mark_run(MarkStage::Start, init);
        let (next, out) = mark_transition(s, inputs.last());
        let all = outs.push(out);
        assert(mark_run(MarkStage::Start, inputs) == (next, all));
        assert forall|i: int| 0 <= i < n implies #[trigger] inputs[i] == init[i] && all[i] == outs[i] by {}
        // The stage reached keeps what it must.
        match s {
            MarkStage::AwaitOwner { order_id, flags, user_id } => {
                let i0 = choose|i: int| 0 <= i < init.len() && claims_user(#[trigger] init[i], user_id@);
                assert(inputs[i0] == init[i0]);
                let i1 = choose|i: int| 0 <= i < init.len() && requests_marking(#[trigger] init[i], order_id, flags);
                assert(inputs[i1] == init[i1]);
            },
            MarkStage::AwaitClaims { order_id, flags } => {
                let i1 = choose|i: int| 0 <= i < init.len() && requests_marking(#[trigger] init[i], order_id, flags);
                assert(inputs[i1] == init[i1]);
                if let MarkStage::AwaitOwner { user_id, .. } = next {
                    assert(claims_user(inputs[n], user_id@));
                }
            },
            MarkStage::Start => {
                if let MarkStage::AwaitClaims { order_id, flags } = next {
                    assert(requests_marking(inputs[n], order_id, flags));
                }
            },
            _ => {},
        }
        assert(mark_stage_ok(next, inputs));
        if exists|i: int| 0 <= i < inputs.len() && answers(#[trigger] all[i]) {
            let i = choose|i: int| 0 <= i < inputs.len() && answers(#[trigger] all[i]);
            if i < n {
                assert(answers(outs[i]));
            }
        }
        if exists|i: int| 0 <= i < inputs.len() && (#[trigger] all[i]) is WriteEvent {
            let i = choose|i: int| 0 <= i < inputs.len() && (#[trigger] all[i]) is WriteEvent;
            if i < n {
                assert(outs[i] is WriteEvent);
            }
        }
        assert forall|i: int, j: int| 0 <= i < j < inputs.len() && answers(#[trigger] all[i]) implies (#[trigger] all[j]) is Nothing by {
            assert(answers(outs[i]));
            if j < n {
                assert(outs[j] is Nothing);
            }
        }
        assert forall|i: int, j: int| 0 <= i < j < inputs.len() && (#[trigger] all[i]) is WriteEvent implies !((#[trigger] all[j]) is Refuse) by {
            assert(outs[i] is WriteEvent);
            if j < n {
                assert(!(outs[j] is Refuse));
            }
        }
        assert forall|j: int| 0 <= j < inputs.len() implies match #[trigger] all[j] {
            MarkOutput::WriteEvent { flags, .. } => some_flag(flags) && (inputs[j] matches MarkInput::Owner(Some(x))
                && exists|i: int| 0 <= i < j && claims_user(#[trigger] inputs[i], x@)),
            _ => true,
        } by {
            if j < n {
                assert(all[j] == outs[j]);
                if let MarkOutput::WriteEvent { .. } = outs[j] {
                    if let MarkInput::Owner(Some(x)) = init[j] {
                        let i0 = choose|i: int| 0 <= i < j && claims_user(#[trigger] init[i], x@);
                        assert(inputs[i0] == init[i0]);
                    }
                }
            } else if let MarkOutput::WriteEvent { .. } = out {
                if let MarkStage::AwaitOwner { user_id, .. } = s {
                    let i0 = choose|i: int| 0 <= i < init.len() && claims_user(#[trigger] init[i], user_id@);
                    assert(inputs[i0] == init[i0]);
                }
            }
        }
        assert forall|j: int| 0 <= j < inputs.len() implies match #[trigger] all[j] {
            MarkOutput::WriteEvent { order_id, flags } => exists|i: int|
                0 <= i < j && requests_marking(#[trigger] inputs[i], order_id, flags),
            _ => true,
        } by {
            if j < n {
                assert(all[j] == outs[j]);
                if let MarkOutput::WriteEvent { order_id, flags } = outs[j] {
                    let i1 = choose|i: int| 0 <= i < j && requests_marking(#[trigger] init[i], order_id, flags);
                    assert(inputs[i1] == init[i1]);
                }
            } else if let MarkOutput::WriteEvent { .. } = out {
                if let MarkStage::AwaitOwner { order_id, flags, .. } = s {
                    let i1 = choose|i: int| 0 <= i < init.len() && requests_marking(#[trigger] init[i], order_id, flags);
                    assert(inputs[i1] == init[i1]);
                }
            }
        }
    }
}

/// The event a marking writes is the one the request asked for: the order
/// and the flags written are those of the request, so a rejection is
/// written as `OrderRejected` and a processing as `OrderProcessed`.
pub proof fn lemma_mark_writes_what_was_requested(inputs: Seq<MarkInput>)
    ensures
        forall|j: int|
            0 <= j < inputs.len() ==> match #[trigger] mark_run(MarkStage::Start, inputs).1[j] {
                MarkOutput::WriteEvent { order_id, flags } => exists|i: int|
                    0 <= i < j && requests_marking(#[trigger] inputs[i], order_id, flags),
                _ => true,
            },
{
    lemma_mark_run(inputs);
}

/// A request whose flags are set, whose token names the user who owns the
/// stored order, is written with exactly its order id and flags, then
/// answered.
pub proof fn lemma_owner_marking_is_written(order_id: String, flags: WebModel, token: String, user_id: String, owner: String)
    requires
        flags.processed || flags.rejected,
        owner@ == user_id@,
    ensures
        ({
            let inputs = seq![
                MarkInput::Request { order_id, flags, auth: Ok(token) },
                MarkInput::Claims(Ok(user_id)),
                MarkInput::Owner(Some(owner)),
                MarkInput::Written,
            ];
            let outs = mark_run(MarkStage::Start, inputs).1;
            &&& outs[0] == MarkOutput::DecodeToken(token)
            &&& outs[1] == MarkOutput::ReadOwner
            &&& outs[2] == MarkOutput::WriteEvent { order_id, flags }
            &&& outs[3] == MarkOutput::Respond
        }),
{
    let inputs = seq![
        MarkInput::Request { order_id, flags, auth: Ok(token) },
        MarkInput::Claims(Ok(user_id)),
        MarkInput::Owner(Some(owner)),
        MarkInput::Written,
    ];
    let p0 = Seq::<MarkInput>::empty();
    let p1 = p0.push(MarkInput::Request { order_id, flags, auth: Ok(token) });
    let p2 = p1.push(MarkInput::Claims(Ok(user_id)));
    let p3 = p2.push(MarkInput::Owner(Some(owner)));
    let p4 = p3.push(MarkInput::Written);
    assert(p4 =~= inputs);
    assert(p1.drop_last() =~= p0);
    assert(p2.drop_last() =~= p1);
    assert(p3.drop_last() =~= p2);
    assert(p4.drop_last() =~= p3);
    assert(mark_run(MarkStage::Start, p0) == (MarkStage::Start, Seq::<MarkOutput>::empty()));
    assert(p1.last() == MarkInput::Request { order_id, flags, auth: Ok(token) });
    assert(p2.last() == MarkInput::Claims(Ok(user_id)));
    assert(p3.last() == MarkInput::Owner(Some(owner)));
    assert(p4.last() == MarkInput::Written);
    let r1 = mark_run(MarkStage::Start, p1);
    assert(r1.0 == MarkStage::AwaitClaims { order_id, flags });
    assert(r1.1 =~= seq![MarkOutput::DecodeToken(token)]);
    let r2 = mark_run(MarkStage::Start, p2);
    assert(r2.0 == MarkStage::AwaitOwner { order_id, flags, user_id });
    let r3 = mark_run(MarkStage::Start, p3);
    assert(r3.0 == MarkStage::AwaitWrite);
    let r4 = mark_run(MarkStage::Start, p4);
    assert(r4.1[0] == MarkOutput::DecodeToken(token));
    assert(r4.1[1] == MarkOutput::ReadOwner);
    assert(r4.1[2] == MarkOutput::WriteEvent { order_id, flags });
}

/// A marking request is refused before anything is written, or written only
/// after every check passed: once the request is answered, later inputs
/// change nothing; no refusal follows the write; and the event is written
/// only for set flags, when the stored order's owner is the user the token
/// named.
pub proof fn lemma_mark_refusals_come_before_the_write(inputs: Seq<MarkInput>)
    ensures
        mark_run(MarkStage::Start, inputs).1.len() == inputs.len(),
        forall|i: int, j: int|
            0 <= i < j < inputs.len() && answers(#[trigger] mark_run(MarkStage::Start, inputs).1[i])
                ==> (#[trigger] mark_run(MarkStage::Start, inputs).1[j]) is Nothing,
        forall|i: int, j: int|
            0 <= i < j < inputs.len() && (#[trigger] mark_run(MarkStage::Start, inputs).1[i]) is WriteEvent
                ==> !((#[trigger] mark_run(MarkStage::Start, inputs).1[j]) is Refuse),
        forall|j: int|
            0 <= j < inputs.len() ==> match #[trigger] mark_run(MarkStage::Start, inputs).1[j] {
                MarkOutput::WriteEvent { flags, .. } => some_flag(flags) && (inputs[j] matches MarkInput::Owner(Some(x))
                    && exists|i: int| 0 <= i < j && claims_user(#[trigger] inputs[i], x@)),
                _ => true,
            },
{
    lemma_mark_run(inputs);
}

} // verus!
