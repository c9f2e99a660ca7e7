//! Validating a registration and hashing its password.

use vstd::prelude::*;
use crate::pattern::{outcome_agrees, first_failure, text_failure};
use crate::password::{hash_password, bcrypt_verify_result, is_bcrypt_hash_with_cost, lemma_default_cost_digits, DEFAULT_COST};
use super::{User, profile_failure, user_field_pattern, profile_fields_pass, passes, lemma_user_field_patterns, lemma_profile_accepted_iff_every_field_passes, check_uniqueness, uniqueness_failure, pair_views, UniquenessError};

verus! {

/// The body of a `UserRegistered` event; `password` is a bcrypt hash.
/// `start_date` is in microseconds since 1970-01-01 00:00:00 UTC.
#[derive(Debug, Clone, PartialEq)]
pub struct UserRegisteredData {
    pub name: String,
    pub start_date: Option<i64>,
    pub address: Option<String>,
    pub phone_number: Option<String>,
    pub username: String,
    pub password: String,
    pub email: String,
    pub photo: Option<String>,
}

/// A registration as a client sends it, with the password in clear.
#[derive(Debug, Clone, PartialEq)]
pub struct WebModel {
    pub name: String,
    pub start_date: Option<i64>,
    pub address: Option<String>,
    pub phone_number: Option<String>,
    pub username: String,
    pub password: String,
    pub email: String,
    pub photo: Option<String>,
}

/// The first check a registration fails: the profile's fields in order,
/// then the password.
pub open spec fn registration_failure(m: WebModel) -> Option<Option<Seq<char>>> {
    first_failure(
        profile_failure(m.name@, m.address.deep_view(), m.phone_number.deep_view(), m.username@, m.email@),
        text_failure(user_field_pattern("password"@), "password"@, m.password@, false),
    )
}

/// A registration is accepted exactly when each of its fields passes its
/// own check, the password (2 to 50 characters) included.
pub proof fn lemma_registration_accepted_iff_every_field_passes(m: WebModel)
    ensures
        registration_failure(m) is None <==> (profile_fields_pass(
            m.name@,
            m.address.deep_view(),
            m.phone_number.deep_view(),
            m.username@,
            m.email@,
        ) && passes("^.{2,50}$"@, "password"@, m.password@)),
{
    lemma_user_field_patterns();
    lemma_profile_accepted_iff_every_field_passes(m.name@, m.address.deep_view(), m.phone_number.deep_view(), m.username@, m.email@);
}

impl UserRegisteredData {
    /// Validates a registration and replaces its password by a bcrypt hash
    /// made with the default cost.
    /// The registration fails on the first invalid field; a valid one fails
    /// only when hashing fails.
    pub fn try_from(user_model: WebModel) -> (r: Result<UserRegisteredData, String>)
        ensures
            registration_failure(user_model) is Some ==> outcome_agrees(r, registration_failure(user_model)),
            r matches Ok(d) ==> {
                &&& registration_failure(user_model) is None
                &&& d.name == user_model.name
                &&& d.start_date == user_model.start_date
                &&& d.address == user_model.address
                &&& d.phone_number == user_model.phone_number
                &&& d.username == user_model.username
                &&& d.email == user_model.email
                &&& d.photo == user_model.photo
                &&& d.password@.len() == 60
                &&& is_bcrypt_hash_with_cost(d.password@, DEFAULT_COST)
                &&& d.password@.subrange(4, 6) == seq!['1', '2']
                &&& bcrypt_verify_result(user_model.password@, d.password@) == Some(true)
            },
    {
        let r = User::validate_profile(
            user_model.name.as_str(),
            &user_model.address,
            &user_model.phone_number,
            user_model.username.as_str(),
            user_model.email.as_str(),
        );
        if r.is_err() {
            return Err(r.unwrap_err());
        }
        let r = User::validate_field_str("password", user_model.password.as_str());
        if r.is_err() {
            return Err(r.unwrap_err());
        }
        proof {
            lemma_default_cost_digits();
        }
        let hashed = hash_password(user_model.password.as_str(), DEFAULT_COST);
        match hashed {
            Err(e) => Err(e),
            Ok(password) => Ok(
                UserRegisteredData {
                    name: user_model.name,
                    start_date: user_model.start_date,
                    address: user_model.address,
                    phone_number: user_model.phone_number,
                    username: user_model.username,
                    password,
                    email: user_model.email,
                    photo: user_model.photo,
                },
            ),
        }
    }
}

/// Where a registration stands.
pub enum RegisterStage {
    /// Nothing received yet.
    Start,
    /// The stored usernames and emails are being read.
    AwaitNames { data: UserRegisteredData },
    /// The user is being stored.
    AwaitSave,
    /// The request has been answered.
    Done,
}

/// What the handler hands back to the registration decisions.
pub enum RegisterInput {
    /// The request, as `UserRegisteredData::try_from` validates it.
    Request(Result<UserRegisteredData, String>),
    /// The stored (username, email) pairs.
    Names(Vec<(String, String)>),
    /// The user row and the event were written.
    Saved,
}

/// Why a registration is refused (400).
pub enum RegisterRefusal {
    /// A field is invalid, or the password could not be hashed.
    Invalid(String),
    /// The username or email is taken.
    Taken(UniquenessError),
}

impl RegisterRefusal {
    /// The message the refusal is answered with.
    pub fn message(&self) -> (m: String)
        ensures
            match self {
                RegisterRefusal::Invalid(e) => m == e,
                RegisterRefusal::Taken(UniquenessError::UsernameExists) => m@ == "username exists"@,
                RegisterRefusal::Taken(UniquenessError::EmailExists) => m@ == "email exists"@,
            },
    {
        match self {
            RegisterRefusal::Invalid(e) => e.clone(),
            RegisterRefusal::Taken(e) => e.message(),
        }
    }
}

/// What the handler is to do next.
pub enum RegisterOutput {
    /// Answer with the refusal; nothing has been written.
    Refuse(RegisterRefusal),
    /// Read the stored usernames and emails.
    ReadNames,
    /// Store the user under a freshly drawn id, then write the
    /// `UserRegistered` event with `data`.
    Save(UserRegisteredData),
    /// Answer that the user was registered.
    Respond,
    /// Nothing: the input does not belong to this stage.
    Nothing,
}

/// The registration decisions: the fields are checked first, then the
/// uniqueness of the username and email, and only then is anything written.
pub open spec fn register_transition(stage: RegisterStage, input: RegisterInput) -> (RegisterStage, RegisterOutput) {
    match (stage, input) {
        (RegisterStage::Start, RegisterInput::Request(r)) => match r {
            Err(e) => (RegisterStage::Done, RegisterOutput::Refuse(RegisterRefusal::Invalid(e))),
            Ok(d) => (RegisterStage::AwaitNames { data: d }, RegisterOutput::ReadNames),
        },
        (RegisterStage::AwaitNames { data }, RegisterInput::Names(rows)) => match uniqueness_failure(
            pair_views(rows@),
            data.username@,
            data.email@,
        ) {
            Some(e) => (RegisterStage::Done, RegisterOutput::Refuse(RegisterRefusal::Taken(e))),
            None => (RegisterStage::AwaitSave, RegisterOutput::Save(data)),
        },
        (RegisterStage::AwaitSave, RegisterInput::Saved) => (RegisterStage::Done, RegisterOutput::Respond),
        (s, _) => (s, RegisterOutput::Nothing),
    }
}

/// One step of a registration.
pub fn register_step(stage: RegisterStage, input: RegisterInput) -> (r: (RegisterStage, RegisterOutput))
    ensures
        r == register_transition(stage, input),
{
    match (stage, input) {
        (RegisterStage::Start, RegisterInput::Request(r)) => match r {
            Err(e) => (RegisterStage::Done, RegisterOutput::Refuse(RegisterRefusal::Invalid(e))),
            Ok(d) => (RegisterStage::AwaitNames { data: d }, RegisterOutput::ReadNames),
        },
        (RegisterStage::AwaitNames { data }, RegisterInput::Names(rows)) => {
            match check_uniqueness(&rows, data.username.as_str(), data.email.as_str()) {
                Err(e) => (RegisterStage::Done, RegisterOutput::Refuse(RegisterRefusal::Taken(e))),
                Ok(()) => (RegisterStage::AwaitSave, RegisterOutput::Save(data)),
            }
        },
        (RegisterStage::AwaitSave, RegisterInput::Saved) => (RegisterStage::Done, RegisterOutput::Respond),
        (s, _) => (s, RegisterOutput::Nothing),
    }
}

/// The stage reached and the outputs given when `inputs` are handed to the
/// decisions one after another, from `stage`.
pub open spec fn register_run(stage: RegisterStage, inputs: Seq<RegisterInput>) -> (RegisterStage, Seq<RegisterOutput>)
    decreases inputs.len(),
{
    if inputs.len() == 0 {
        (stage, Seq::empty())
    } else {
        let (s, outs) = register_run(stage, inputs.drop_last());
        let (next, out) = register_transition(s, inputs.last());
        (next, outs.push(out))
    }
}

/// An output that answers the request.
pub open spec fn register_answers(out: RegisterOutput) -> bool {
    out is Refuse || out is Respond
}

/// What every stage reached from the start keeps of the inputs so far.
pub open spec fn register_stage_ok(stage: RegisterStage, inputs: Seq<RegisterInput>) -> bool {
    match stage {
        RegisterStage::AwaitNames { data } => exists|i: int|
            0 <= i < inputs.len() && #[trigger] inputs[i] == RegisterInput::Request(Ok(data)),
        _ => true,
    }
}

/// The save, if the output is one, follows from the inputs: the stored names
/// do not clash with the registration, and the request carried it.
pub open spec fn register_save_justified(out: RegisterOutput, inputs: Seq<RegisterInput>, j: int) -> bool {
    match out {
        RegisterOutput::Save(data) => {
            &&& inputs[j] matches RegisterInput::Names(rows)
                && uniqueness_failure(pair_views(rows@), data.username@, data.email@) is None
            &&& exists|i: int| 0 <= i < j && #[trigger] inputs[i] == RegisterInput::Request(Ok(data))
        },
        _ => true,
    }
}

proof fn lemma_register_run(inputs: Seq<RegisterInput>)
    ensures
        register_run(RegisterStage::Start, inputs).1.len() == inputs.len(),
        register_stage_ok(register_run(RegisterStage::Start, inputs).0, inputs),
        (exists|i: int| 0 <= i < inputs.len() && register_answers(#[trigger] register_run(RegisterStage::Start, inputs).1[i]))
            ==> register_run(RegisterStage::Start, inputs).0 is Done,
        (exists|i: int| 0 <= i < inputs.len() && (#[trigger] register_run(RegisterStage::Start, inputs).1[i]) is Save)
            ==> (register_run(RegisterStage::Start, inputs).0 is AwaitSave || register_run(RegisterStage::Start, inputs).0 is Done),
        forall|i: int, j: int|
            0 <= i < j < inputs.len() && register_answers(#[trigger] register_run(RegisterStage::Start, inputs).1[i])
                ==> (#[trigger] register_run(RegisterStage::Start, inputs).1[j]) is Nothing,
        forall|i: int, j: int|
            0 <= i < j < inputs.len() && (#[trigger] register_run(RegisterStage::Start, inputs).1[i]) is Save
                ==> !((#[trigger] register_run(RegisterStage::Start, inputs).1[j]) is Refuse),
        forall|j: int|
            0 <= j < inputs.len() ==> register_save_justified(#[trigger] register_run(RegisterStage::Start, inputs).1[j], inputs, j),
    decreases inputs.len(),
{
    if inputs.len() > 0 {
        let init = inputs.drop_last();
        let n = inputs.len() - 1;
        lemma_register_run(init);
        let (s, outs) = register_run(RegisterStage::Start, init);
        let (next, out) = register_transition(s, inputs.last());
        let all = outs.push(out);
        assert(register_run(RegisterStage::Start, inputs) == (next, all));
        assert forall|i: int| 0 <= i < n implies #[trigger] inputs[i] == init[i] && all[i] == outs[i] by {}
        match s {
            RegisterStage::AwaitNames { data } => {
                let i1 = choose|i: int| 0 <= i < init.len() && #[trigger] init[i] == RegisterInput::Request(Ok(data));
                assert(inputs[i1] == init[i1]);
            },
            RegisterStage::Start => {
                if let RegisterStage::AwaitNames { data } = next {
                    assert(inputs[n] == RegisterInput::Request(Ok(data)));
                }
            },
            _ => {},
        }
        assert(register_stage_ok(next, inputs));
        if exists|i: int| 0 <= i < inputs.len() && register_answers(#[trigger] all[i]) {
            let i = choose|i: int| 0 <= i < inputs.len() && register_answers(#[trigger] all[i]);
            if i < n {
                assert(register_answers(outs[i]));
            }
        }
        if exists|i: int| 0 <= i < inputs.len() && (#[trigger] all[i]) is Save {
            let i = choose|i: int| 0 <= i < inputs.len() && (#[trigger] all[i]) is Save;
            if i < n {
                assert(outs[i] is Save);
            }
        }
        assert forall|i: int, j: int| 0 <= i < j < inputs.len() && register_answers(#[trigger] all[i]) implies (#[trigger] all[j]) is Nothing by {
            assert(register_answers(outs[i]));
            if j < n {
                assert(outs[j] is Nothing);
            }
        }
        assert forall|i: int, j: int| 0 <= i < j < inputs.len() && (#[trigger] all[i]) is Save implies !((#[trigger] all[j]) is Refuse) by {
            assert(outs[i] is Save);
            if j < n {
                assert(!(outs[j] is Refuse));
            }
        }
        assert forall|j: int| 0 <= j < inputs.len() implies register_save_justified(#[trigger] all[j], inputs, j) by {
            if j < n {
                assert(all[j] == outs[j]);
                assert(register_save_justified(outs[j], init, j));
                if let RegisterOutput::Save(data) = outs[j] {
                    let i1 = choose|i: int| 0 <= i < j && #[trigger] init[i] == RegisterInput::Request(Ok(data));
                    assert(inputs[i1] == init[i1]);
                    assert(inputs[j] == init[j]);
                }
            } else if let RegisterOutput::Save(_) = out {
                if let RegisterStage::AwaitNames { data } = s {
                    let i1 = choose|i: int| 0 <= i < init.len() && #[trigger] init[i] == RegisterInput::Request(Ok(data));
                    assert(inputs[i1] == init[i1]);
                }
            }
        }
    }
}

/// A registration is refused before anything is written, or saved only
/// after every check passed: once the request is answered, later inputs
/// change nothing; no refusal follows the save; and the registration saved
/// is the one the request carried, when no stored user has its username or
/// email.
pub proof fn lemma_register_refusals_come_before_the_save(inputs: Seq<RegisterInput>)
    ensures
        register_run(RegisterStage::Start, inputs).1.len() == inputs.len(),
        forall|i: int, j: int|
            0 <= i < j < inputs.len() && register_answers(#[trigger] register_run(RegisterStage::Start, inputs).1[i])
                ==> (#[trigger] register_run(RegisterStage::Start, inputs).1[j]) is Nothing,
        forall|i: int, j: int|
            0 <= i < j < inputs.len() && (#[trigger] register_run(RegisterStage::Start, inputs).1[i]) is Save
                ==> !((#[trigger] register_run(RegisterStage::Start, inputs).1[j]) is Refuse),
        forall|j: int|
            0 <= j < inputs.len() ==> register_save_justified(#[trigger] register_run(RegisterStage::Start, inputs).1[j], inputs, j),
{
    lemma_register_run(inputs);
}

/// A valid registration whose username and email no stored user has is
/// saved, with exactly the data the request carried, and then answered.
pub proof fn lemma_fresh_registration_is_saved(data: UserRegisteredData, rows: Vec<(String, String)>)
    requires
        uniqueness_failure(pair_views(rows@), data.username@, data.email@) is None,
    ensures
        ({
            let inputs = seq![RegisterInput::Request(Ok(data)), RegisterInput::Names(rows), RegisterInput::Saved];
            let outs = register_run(RegisterStage::Start, inputs).1;
            &&& outs[0] == RegisterOutput::ReadNames
            &&& outs[1] == RegisterOutput::Save(data)
            &&& outs[2] == RegisterOutput::Respond
        }),
{
    let p0 = Seq::<RegisterInput>::empty();
    let p1 = p0.push(RegisterInput::Request(Ok(data)));
    let p2 = p1.push(RegisterInput::Names(rows));
    let p3 = p2.push(RegisterInput::Saved);
    assert(p3 =~= seq![RegisterInput::Request(Ok(data)), RegisterInput::Names(rows), RegisterInput::Saved]);
    assert(p1.drop_last() =~= p0);
    assert(p2.drop_last() =~= p1);
    assert(p3.drop_last() =~= p2);
    assert(register_run(RegisterStage::Start, p0) == (RegisterStage::Start, Seq::<RegisterOutput>::empty()));
    assert(p1.last() == RegisterInput::Request(Ok(data)));
    assert(p2.last() == RegisterInput::Names(rows));
    assert(p3.last() == RegisterInput::Saved);
    let r1 = register_run(RegisterStage::Start, p1);
    assert(r1.0 == RegisterStage::AwaitNames { data });
    let r2 = register_run(RegisterStage::Start, p2);
    assert(r2.0 == RegisterStage::AwaitSave);
    let r3 = register_run(RegisterStage::Start, p3);
    assert(r3.1[0] == RegisterOutput::ReadNames);
    assert(r3.1[1] == RegisterOutput::Save(data));
}

} // verus!
