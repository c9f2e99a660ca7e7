//! Validating a profile change.

use vstd::prelude::*;
use crate::pattern::outcome_agrees;
use super::{User, profile_failure, profile_fields_pass, lemma_profile_accepted_iff_every_field_passes, check_uniqueness, uniqueness_failure, pair_views, UniquenessError};
use crate::auth::AuthError;

verus! {

/// The body of a `UserModified` event. `start_date` is in microseconds since
/// 1970-01-01 00:00:00 UTC.
#[derive(Debug, Clone, PartialEq)]
pub struct UserModifiedData {
    pub name: String,
    pub start_date: Option<i64>,
    pub address: Option<String>,
    pub phone_number: Option<String>,
    pub username: String,
    pub email: String,
    pub photo: Option<String>,
}

/// A profile change as a client sends it.
#[derive(Debug, Clone, PartialEq)]
pub struct WebModel {
    pub name: String,
    pub start_date: Option<i64>,
    pub address: Option<String>,
    pub phone_number: Option<String>,
    pub username: String,
    pub email: String,
    pub photo: Option<String>,
}

pub open spec fn modification_failure(m: WebModel) -> Option<Option<Seq<char>>> {
    profile_failure(m.name@, m.address.deep_view(), m.phone_number.deep_view(), m.username@, m.email@)
}

/// A profile change is accepted exactly when each of its fields passes its
/// own check.
pub proof fn lemma_modification_accepted_iff_every_field_passes(m: WebModel)
    ensures
        modification_failure(m) is None <==> profile_fields_pass(
            m.name@,
            m.address.deep_view(),
            m.phone_number.deep_view(),
            m.username@,
            m.email@,
        ),
{
    lemma_profile_accepted_iff_every_field_passes(m.name@, m.address.deep_view(), m.phone_number.deep_view(), m.username@, m.email@);
}

impl UserModifiedData {
    /// Validates a profile change; it fails on the first invalid field.
    pub fn try_from(user_model: WebModel) -> (r: Result<UserModifiedData, String>)
        ensures
            outcome_agrees(r, modification_failure(user_model)),
            r matches Ok(d) ==> {
                &&& d.name == user_model.name
                &&& d.start_date == user_model.start_date
                &&& d.address == user_model.address
                &&& d.phone_number == user_model.phone_number
                &&& d.username == user_model.username
                &&& d.email == user_model.email
                &&& d.photo == user_model.photo
            },
    {
        let r = User::validate_profile(
            user_model.name.as_str(),
            &user_model.address,
            &user_model.phone_number,
            user_model.username.as_str(),
            user_model.email.as_str(),
        );
        if r.is_err() {
            return Err(r.unwrap_err());
        }
        Ok(
            UserModifiedData {
                name: user_model.name,
                start_date: user_model.start_date,
                address: user_model.address,
                phone_number: user_model.phone_number,
                username: user_model.username,
                email: user_model.email,
                photo: user_model.photo,
            },
        )
    }
}

/// Where a profile change stands.
pub enum ModifyStage {
    /// Nothing received yet.
    Start,
    /// The caller's token is being decoded.
    AwaitClaims { data: Result<UserModifiedData, String> },
    /// The usernames and emails of the other users are being read.
    AwaitNames { user_id: String, data: UserModifiedData },
    /// The change is being saved.
    AwaitSave,
    /// The request has been answered.
    Done,
}

/// What the handler hands back to the profile-change decisions.
pub enum ModifyInput {
    /// The request: the token its `Authorization` header carries (as
    /// `auth_token` reads it) and its body as `UserModifiedData::try_from`
    /// validates it.
    Request { auth: Result<String, AuthError>, data: Result<UserModifiedData, String> },
    /// The id in the decoded token, or why the token could not be decoded.
    Claims(Result<String, String>),
    /// The (username, email) pairs of the users other than the caller.
    Names(Vec<(String, String)>),
    /// The user row was updated and the event written.
    Saved,
}

/// Why a profile change is refused.
pub enum ModifyRefusal {
    Auth(AuthError),
    /// The token could not be decoded (400).
    Token(String),
    /// A field is invalid (400).
    Invalid(String),
    /// The username or email is another user's (400).
    Taken(UniquenessError),
}

impl ModifyRefusal {
    /// The status the refusal is answered with.
    pub fn status(&self) -> (c: u16)
        ensures
            c == match self {
                ModifyRefusal::Auth(AuthError::Missing) => 401u16,
                _ => 400u16,
            },
    {
        match self {
            ModifyRefusal::Auth(e) => e.status(),
            _ => 400,
        }
    }

    /// The message the refusal is answered with.
    pub fn message(&self) -> (m: String)
        ensures
            match self {
                ModifyRefusal::Auth(AuthError::Missing) => m@ == "Auth required."@,
                ModifyRefusal::Auth(AuthError::NotText) => m@ == "failed to convert header to a str"@,
                ModifyRefusal::Token(e) => m == e,
                ModifyRefusal::Invalid(e) => m == e,
                ModifyRefusal::Taken(UniquenessError::UsernameExists) => m@ == "username exists"@,
                ModifyRefusal::Taken(UniquenessError::EmailExists) => m@ == "email exists"@,
            },
    {
        match self {
            ModifyRefusal::Auth(e) => e.message(),
            ModifyRefusal::Token(e) => e.clone(),
            ModifyRefusal::Invalid(e) => e.clone(),
            ModifyRefusal::Taken(e) => e.message(),
        }
    }
}

/// What the handler is to do next.
pub enum ModifyOutput {
    /// Answer with the refusal; nothing has been written.
    Refuse(ModifyRefusal),
    /// Decode the token.
    DecodeToken(String),
    /// Read the usernames and emails of the users other than `user_id`.
    ReadOtherNames(String),
    /// Set the username and email of the user `user_id`, then write the
    /// `UserModified` event with `data`.
    Save { user_id: String, data: UserModifiedData },
    /// Answer that the user was modified.
    Respond,
    /// Nothing: the input does not belong to this stage.
    Nothing,
}

/// The profile-change decisions: the token is checked first, then the
/// fields, then the uniqueness of the username and email, and only then is
/// anything written.
pub open spec fn modify_transition(stage: ModifyStage, input: ModifyInput) -> (ModifyStage, ModifyOutput) {
    match (stage, input) {
        (ModifyStage::Start, ModifyInput::Request { auth, data }) => match auth {
            Err(e) => (ModifyStage::Done, ModifyOutput::Refuse(ModifyRefusal::Auth(e))),
            Ok(t) => (ModifyStage::AwaitClaims { data }, ModifyOutput::DecodeToken(t)),
        },
        (ModifyStage::AwaitClaims { data }, ModifyInput::Claims(c)) => match c {
            Err(e) => (ModifyStage::Done, ModifyOutput::Refuse(ModifyRefusal::Token(e))),
            Ok(u) => match data {
                Err(e) => (ModifyStage::Done, ModifyOutput::Refuse(ModifyRefusal::Invalid(e))),
                Ok(d) => (ModifyStage::AwaitNames { user_id: u, data: d }, ModifyOutput::ReadOtherNames(u)),
            },
        },
        (ModifyStage::AwaitNames { user_id, data }, ModifyInput::Names(rows)) => match uniqueness_failure(
            pair_views(rows@),
            data.username@,
            data.email@,
        ) {
            Some(e) => (ModifyStage::Done, ModifyOutput::Refuse(ModifyRefusal::Taken(e))),
            None => (ModifyStage::AwaitSave, ModifyOutput::Save { user_id, data }),
        },
        (ModifyStage::AwaitSave, ModifyInput::Saved) => (ModifyStage::Done, ModifyOutput::Respond),
        (s, _) => (s, ModifyOutput::Nothing),
    }
}

/// One step of a profile change.
pub fn modify_step(stage: ModifyStage, input: ModifyInput) -> (r: (ModifyStage, ModifyOutput))
    ensures
        r == modify_transition(stage, input),
{
    match (stage, input) {
        (ModifyStage::Start, ModifyInput::Request { auth, data }) => match auth {
            Err(e) => (ModifyStage::Done, ModifyOutput::Refuse(ModifyRefusal::Auth(e))),
            Ok(t) => (ModifyStage::AwaitClaims { data }, ModifyOutput::DecodeToken(t)),
        },
        (ModifyStage::AwaitClaims { data }, ModifyInput::Claims(c)) => match c {
            Err(e) => (ModifyStage::Done, ModifyOutput::Refuse(ModifyRefusal::Token(e))),
            Ok(u) => match data {
                Err(e) => (ModifyStage::Done, ModifyOutput::Refuse(ModifyRefusal::Invalid(e))),
                Ok(d) => {
                    let id = u.clone();
                    (ModifyStage::AwaitNames { user_id: u, data: d }, ModifyOutput::ReadOtherNames(id))
                },
            },
        },
        (ModifyStage::AwaitNames { user_id, data }, ModifyInput::Names(rows)) => {
            match check_uniqueness(&rows, data.username.as_str(), data.email.as_str()) {
                Err(e) => (ModifyStage::Done, ModifyOutput::Refuse(ModifyRefusal::Taken(e))),
                Ok(()) => (ModifyStage::AwaitSave, ModifyOutput::Save { user_id, data }),
            }
        },
        (ModifyStage::AwaitSave, ModifyInput::Saved) => (ModifyStage::Done, ModifyOutput::Respond),
        (s, _) => (s, ModifyOutput::Nothing),
    }
}

/// The stage reached and the outputs given when `inputs` are handed to the
/// decisions one after another, from `stage`.
pub open spec fn modify_run(stage: ModifyStage, inputs: Seq<ModifyInput>) -> (ModifyStage, Seq<ModifyOutput>)
    decreases inputs.len(),
{
    if inputs.len() == 0 {
        (stage, Seq::empty())
    } else {
        let (s, outs) = modify_run(stage, inputs.drop_last());
        let (next, out) = modify_transition(s, inputs.last());
        (next, outs.push(out))
    }
}

/// An output that answers the request.
pub open spec fn modify_answers(out: ModifyOutput) -> bool {
    out is Refuse || out is Respond
}

/// The input is a decoded token naming the user `id`.
pub open spec fn claims_user(input: ModifyInput, id: String) -> bool {
    input == ModifyInput::Claims(Ok(id))
}

/// The input is a request whose body validated to `data`.
pub open spec fn requests(input: ModifyInput, data: Result<UserModifiedData, String>) -> bool {
    input matches ModifyInput::Request { data: r, .. } && r == data
}

/// What every stage reached from the start keeps of the inputs so far.
pub open spec fn modify_stage_ok(stage: ModifyStage, inputs: Seq<ModifyInput>) -> bool {
    match stage {
        ModifyStage::AwaitClaims { data } => exists|i: int|
            0 <= i < inputs.len() && requests(#[trigger] inputs[i], data),
        ModifyStage::AwaitNames { user_id, data } => {
            &&& exists|i: int| 0 <= i < inputs.len() && claims_user(#[trigger] inputs[i], user_id)
            &&& exists|i: int| 0 <= i < inputs.len() && requests(#[trigger] inputs[i], Ok(data))
        },
        _ => true,
    }
}

/// The save, if the output is one, follows from the input: the other users'
/// names do not clash with the change, a token named the user and the
/// request carried the change.
pub open spec fn save_justified(out: ModifyOutput, inputs: Seq<ModifyInput>, j: int) -> bool {
    match out {
        ModifyOutput::Save { user_id, data } => {
            &&& inputs[j] matches ModifyInput::Names(rows)
                && uniqueness_failure(pair_views(rows@), data.username@, data.email@) is None
            &&& exists|i: int| 0 <= i < j && claims_user(#[trigger] inputs[i], user_id)
            &&& exists|i: int| 0 <= i < j && requests(#[trigger] inputs[i], Ok(data))
        },
        _ => true,
    }
}

proof fn lemma_modify_run(inputs: Seq<ModifyInput>)
    ensures
        modify_run(ModifyStage::Start, inputs).1.len() == inputs.len(),
        modify_stage_ok(modify_run(ModifyStage::Start, inputs).0, inputs),
        (exists|i: int| 0 <= i < inputs.len() && modify_answers(#[trigger] modify_run(ModifyStage::Start, inputs).1[i]))
            ==> modify_run(ModifyStage::Start, inputs).0 is Done,
        (exists|i: int| 0 <= i < inputs.len() && (#[trigger] modify_run(ModifyStage::Start, inputs).1[i]) is Save)
            ==> (modify_run(ModifyStage::Start, inputs).0 is AwaitSave || modify_run(ModifyStage::Start, inputs).0 is Done),
        forall|i: int, j: int|
            0 <= i < j < inputs.len() && modify_answers(#[trigger] modify_run(ModifyStage::Start, inputs).1[i])
                ==> (#[trigger] modify_run(ModifyStage::Start, inputs).1[j]) is Nothing,
        forall|i: int, j: int|
            0 <= i < j < inputs.len() && (#[trigger] modify_run(ModifyStage::Start, inputs).1[i]) is Save
                ==> !((#[trigger] modify_run(ModifyStage::Start, inputs).1[j]) is Refuse),
        forall|j: int|
            0 <= j < inputs.len() ==> save_justified(#[trigger] modify_run(ModifyStage::Start, inputs).1[j], inputs, j),
    decreases inputs.len(),
{
    if inputs.len() > 0 {
        let init = inputs.drop_last();
        let n = inputs.len() - 1;
        lemma_modify_run(init);
        let (s, outs) = modify_run(ModifyStage::Start, init);
        let (next, out) = modify_transition(s, inputs.last());
        let all = outs.push(out);
        assert(modify_run(ModifyStage::Start, inputs) == (next, all));
        assert forall|i: int| 0 <= i < n implies #[trigger] inputs[i] == init[i] && all[i] == outs[i] by {}
        match s {
            ModifyStage::AwaitNames { user_id, data } => {
                let i0 = choose|i: int| 0 <= i < init.len() && claims_user(#[trigger] init[i], user_id);
                let i1 = choose|i: int|
                    0 <= i < init.len() && requests(#[trigger] init[i], Ok(data));
                assert(inputs[i0] == init[i0]);
                assert(inputs[i1] == init[i1]);
            },
            ModifyStage::AwaitClaims { data } => {
                let i1 = choose|i: int|
                    0 <= i < init.len() && requests(#[trigger] init[i], data);
                assert(inputs[i1] == init[i1]);
                if let ModifyStage::AwaitNames { user_id, .. } = next {
                    assert(claims_user(inputs[n], user_id));
                }
            },
            ModifyStage::Start => {
                if let ModifyStage::AwaitClaims { .. } = next {
                    assert(inputs[n] is Request);
                }
            },
            _ => {},
        }
        assert(modify_stage_ok(next, inputs));
        if exists|i: int| 0 <= i < inputs.len() && modify_answers(#[trigger] all[i]) {
            let i = choose|i: int| 0 <= i < inputs.len() && modify_answers(#[trigger] all[i]);
            if i < n {
                assert(modify_answers(outs[i]));
            }
        }
        if exists|i: int| 0 <= i < inputs.len() && (#[trigger] all[i]) is Save {
            let i = choose|i: int| 0 <= i < inputs.len() && (#[trigger] all[i]) is Save;
            if i < n {
                assert(outs[i] is Save);
            }
        }
        assert forall|i: int, j: int| 0 <= i < j < inputs.len() && modify_answers(#[trigger] all[i]) implies (#[trigger] all[j]) is Nothing by {
            assert(modify_answers(outs[i]));
            if j < n {
                assert(outs[j] is Nothing);
            }
        }
        assert forall|i: int, j: int| 0 <= i < j < inputs.len() && (#[trigger] all[i]) is Save implies !((#[trigger] all[j]) is Refuse) by {
            assert(outs[i] is Save);
            if j < n {
                assert(!(outs[j] is Refuse));
            }
        }
        assert forall|j: int| 0 <= j < inputs.len() implies save_justified(#[trigger] all[j], inputs, j) by {
            if j < n {
                assert(all[j] == outs[j]);
                assert(save_justified(outs[j], init, j));
                if let ModifyOutput::Save { user_id, data } = outs[j] {
                    let i0 = choose|i: int| 0 <= i < j && claims_user(#[trigger] init[i], user_id);
                    let i1 = choose|i: int|
                        0 <= i < j && requests(#[trigger] init[i], Ok(data));
                    assert(inputs[i0] == init[i0]);
                    assert(inputs[i1] == init[i1]);
                    assert(inputs[j] == init[j]);
                }
            } else if let ModifyOutput::Save { .. } = out {
                if let ModifyStage::AwaitNames { user_id, data } = s {
                    let i0 = choose|i: int| 0 <= i < init.len() && claims_user(#[trigger] init[i], user_id);
                    let i1 = choose|i: int|
                        0 <= i < init.len() && requests(#[trigger] init[i], Ok(data));
                    assert(inputs[i0] == init[i0]);
                    assert(inputs[i1] == init[i1]);
                }
            }
        }
    }
}

/// A profile change is refused before anything is written, or saved only
/// after every check passed: once the request is answered, later inputs
/// change nothing; no refusal follows the save; and the change saved is the
/// one the request carried, for the user its token named, when no other
/// user has its username or email.
pub proof fn lemma_modify_refusals_come_before_the_save(inputs: Seq<ModifyInput>)
    ensures
        modify_run(ModifyStage::Start, inputs).1.len() == inputs.len(),
        forall|i: int, j: int|
            0 <= i < j < inputs.len() && modify_answers(#[trigger] modify_run(ModifyStage::Start, inputs).1[i])
                ==> (#[trigger] modify_run(ModifyStage::Start, inputs).1[j]) is Nothing,
        forall|i: int, j: int|
            0 <= i < j < inputs.len() && (#[trigger] modify_run(ModifyStage::Start, inputs).1[i]) is Save
                ==> !((#[trigger] modify_run(ModifyStage::Start, inputs).1[j]) is Refuse),
        forall|j: int|
            0 <= j < inputs.len() ==> save_justified(#[trigger] modify_run(ModifyStage::Start, inputs).1[j], inputs, j),
{
    lemma_modify_run(inputs);
}

/// A valid change, with a token naming the user, whose username and email
/// no other user has, is saved for that user with exactly the data the
/// request carried, and then answered.
pub proof fn lemma_valid_change_is_saved(token: String, user_id: String, data: UserModifiedData, rows: Vec<(String, String)>)
    requires
        uniqueness_failure(pair_views(rows@), data.username@, data.email@) is None,
    ensures
        ({
            let inputs = seq![
                ModifyInput::Request { auth: Ok(token), data: Ok(data) },
                ModifyInput::Claims(Ok(user_id)),
                ModifyInput::Names(rows),
                ModifyInput::Saved,
            ];
            let outs = modify_run(ModifyStage::Start, inputs).1;
            &&& outs[0] == ModifyOutput::DecodeToken(token)
            &&& outs[1] == ModifyOutput::ReadOtherNames(user_id)
            &&& outs[2] == ModifyOutput::Save { user_id, data }
            &&& outs[3] == ModifyOutput::Respond
        }),
{
    let p0 = Seq::<ModifyInput>::empty();
    let p1 = p0.push(ModifyInput::Request { auth: Ok(token), data: Ok(data) });
    let p2 = p1.push(ModifyInput::Claims(Ok(user_id)));
    let p3 = p2.push(ModifyInput::Names(rows));
    let p4 = p3.push(ModifyInput::Saved);
    assert(p4 =~= seq![
        ModifyInput::Request { auth: Ok(token), data: Ok(data) },
        ModifyInput::Claims(Ok(user_id)),
        ModifyInput::Names(rows),
        ModifyInput::Saved,
    ]);
    assert(p1.drop_last() =~= p0);
    assert(p2.drop_last() =~= p1);
    assert(p3.drop_last() =~= p2);
    assert(p4.drop_last() =~= p3);
    assert(modify_run(ModifyStage::Start, p0) == (ModifyStage::Start, Seq::<ModifyOutput>::empty()));
    assert(p1.last() == ModifyInput::Request { auth: Ok(token), data: Ok(data) });
    assert(p2.last() == ModifyInput::Claims(Ok(user_id)));
    assert(p3.last() == ModifyInput::Names(rows));
    assert(p4.last() == ModifyInput::Saved);
    let r1 = modify_run(ModifyStage::Start, p1);
    assert(r1.0 == ModifyStage::AwaitClaims { data: Ok(data) });
    let r2 = modify_run(ModifyStage::Start, p2);
    assert(r2.0 == ModifyStage::AwaitNames { user_id, data });
    let r3 = modify_run(ModifyStage::Start, p3);
    assert(r3.0 == ModifyStage::AwaitSave);
    let r4 = modify_run(ModifyStage::Start, p4);
    assert(r4.1[0] == ModifyOutput::DecodeToken(token));
    assert(r4.1[1] == ModifyOutput::ReadOtherNames(user_id));
    assert(r4.1[2] == ModifyOutput::Save { user_id, data });
}

} // verus!
