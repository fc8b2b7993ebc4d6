use vstd::prelude::*;
use crate::address::{derive_address, derive_of};
use crate::codec::{
    copy_bytes, decode_instruction, decode_record, encode_record, spec_decode_instruction,
    spec_decode_record, spec_encode_record,
};
use crate::error::GreetingError;
use crate::instruction::{GreetingInstruction, InstructionModel};
use crate::result_view;
use crate::state::{spec_saturating_inc, GreetingAccountState, RecordModel};

verus! {

/// One account handle as the host supplies it: its identity, the
/// host-verified signer and writable flags, and the bytes currently stored
/// at it (empty when the account is unallocated).
#[derive(Debug, Clone, PartialEq, Eq)]
pub struct Account {
    /// The account's address (32 bytes).
    pub key: Vec<u8>,
    /// Whether the host verified a signature for this account.
    pub is_signer: bool,
    /// Whether the host allows writes to this account.
    pub is_writable: bool,
    /// The bytes stored at the account; empty means unallocated.
    pub data: Vec<u8>,
}

/// The mathematical model of an account handle.
pub ghost struct AccountModel {
    pub key: Seq<u8>,
    pub is_signer: bool,
    pub is_writable: bool,
    pub data: Seq<u8>,
}

impl View for Account {
    type V = AccountModel;

    open spec fn view(&self) -> AccountModel {
        AccountModel {
            key: self.key@,
            is_signer: self.is_signer,
            is_writable: self.is_writable,
            data: self.data@,
        }
    }
}

/// The models of a list of account handles.
pub open spec fn account_models(s: Seq<Account>) -> Seq<AccountModel> {
    s.map_values(|a: Account| a@)
}

/// The single terminal write a successful invocation asks of the host.
/// The dispatcher itself writes nothing, so a failed invocation leaves
/// every account untouched.
#[derive(Debug, Clone, PartialEq, Eq)]
pub enum Effect {
    /// Allocate the record slot (account 1) with the fixed maximum space,
    /// funded by the payer (account 0), and store these bytes in it.
    Created { record_data: Vec<u8> },
    /// Overwrite the stored record (account 1) with these bytes.
    Updated { record_data: Vec<u8> },
}

/// The mathematical model of an effect.
pub ghost enum EffectModel {
    Created { record_data: Seq<u8> },
    Updated { record_data: Seq<u8> },
}

impl View for Effect {
    type V = EffectModel;

    open spec fn view(&self) -> EffectModel {
        match self {
            Effect::Created { record_data } => EffectModel::Created { record_data: record_data@ },
            Effect::Updated { record_data } => EffectModel::Updated { record_data: record_data@ },
        }
    }
}

/// What a creation yields, checked in order: the three accounts present;
/// the payer a writable signer; the record slot writable; both field
/// lengths within bounds; the slot's address equal to the derived address;
/// the slot empty. On success: the encoding of the fresh record, whose
/// authority is the payer and whose counter starts at zero.
pub open spec fn spec_create(
    program: Seq<u8>,
    accounts: Seq<AccountModel>,
    name: Seq<u8>,
    message: Seq<u8>,
) -> Result<EffectModel, GreetingError> {
    if accounts.len() < 3 {
        Err(GreetingError::NotEnoughAccounts)
    } else {
        let payer = accounts[0];
        let target = accounts[1];
        if !payer.is_signer {
            Err(GreetingError::MissingRequiredSignature)
        } else if !payer.is_writable {
            Err(GreetingError::AccountNotWritable)
        } else if !target.is_writable {
            Err(GreetingError::AccountNotWritable)
        } else if name.len() > GreetingAccountState::MAX_NAME_LENGTH {
            Err(GreetingError::FieldTooLong)
        } else if message.len() > GreetingAccountState::MAX_MESSAGE_LENGTH {
            Err(GreetingError::FieldTooLong)
        } else {
            match derive_of(program, payer.key, name) {
                None => Err(GreetingError::InvalidAccountAddress),
                Some(derived) => {
                    if target.key != derived {
                        Err(GreetingError::InvalidAccountAddress)
                    } else if target.data.len() != 0 {
                        Err(GreetingError::AccountAlreadyInitialized)
                    } else {
                        Ok(
                            EffectModel::Created {
                                record_data: spec_encode_record(
                                    RecordModel {
                                        authority: payer.key,
                                        name: name,
                                        message: message,
                                        update_count: 0,
                                    },
                                ),
                            },
                        )
                    }
                },
            }
        }
    }
}

/// What an update yields, checked in order: the two accounts present; the
/// authority a signer; the record slot writable and non-empty; its bytes
/// decoding as a record; the signer equal to the stored authority; the new
/// message within bounds. On success: the encoding of the record with the
/// message replaced and the counter one higher (saturating); authority and
/// name never change.
pub open spec fn spec_set(accounts: Seq<AccountModel>, message: Seq<u8>) -> Result<
    EffectModel,
    GreetingError,
> {
    if accounts.len() < 2 {
        Err(GreetingError::NotEnoughAccounts)
    } else {
        let authority = accounts[0];
        let target = accounts[1];
        if !authority.is_signer {
            Err(GreetingError::MissingRequiredSignature)
        } else if !target.is_writable {
            Err(GreetingError::AccountNotWritable)
        } else if target.data.len() == 0 {
            Err(GreetingError::AccountNotInitialized)
        } else {
            match spec_decode_record(target.data) {
                Err(_) => Err(GreetingError::InvalidAccountData),
                Ok(rec) => {
                    if authority.key != rec.authority {
                        Err(GreetingError::Unauthorized)
                    } else if message.len() > GreetingAccountState::MAX_MESSAGE_LENGTH {
                        Err(GreetingError::FieldTooLong)
                    } else {
                        Ok(
                            EffectModel::Updated {
                                record_data: spec_encode_record(
                                    RecordModel {
                                        authority: rec.authority,
                                        name: rec.name,
                                        message: message,
                                        update_count: spec_saturating_inc(rec.update_count),
                                    },
                                ),
                            },
                        )
                    }
                },
            }
        }
    }
}

/// What one invocation yields: a decode failure surfaces as
/// `InvalidInstructionData`; otherwise the decoded variant's own rule.
pub open spec fn spec_process(
    program: Seq<u8>,
    accounts: Seq<AccountModel>,
    data: Seq<u8>,
) -> Result<EffectModel, GreetingError> {
    match spec_decode_instruction(data) {
        Err(_) => Err(GreetingError::InvalidInstructionData),
        Ok(InstructionModel::CreateGreeting { name, message }) => spec_create(
            program,
            accounts,
            name,
            message,
        ),
        Ok(InstructionModel::SetGreeting { message }) => spec_set(accounts, message),
    }
}

/// Returns whether two byte strings hold the same bytes.
fn bytes_eq(a: &Vec<u8>, b: &Vec<u8>) -> (r: bool)
    ensures
        r <==> a@ == b@,
{
    if a.len() != b.len() {
        return false;
    }
    let mut i: usize = 0;
    while i < a.len()
        invariant
            a@.len() == b@.len(),
            i <= a@.len(),
            forall|j: int| 0 <= j < i ==> a@[j] == b@[j],
        decreases a@.len() - i,
    {
        if a[i] != b[i] {
            return false;
        }
        i = i + 1;
    }
    proof {
        assert(a@ =~= b@);
    }
    true
}

/// Handles a creation, as [`spec_create`] describes.
fn process_create(
    program_id: &Vec<u8>,
    accounts: &Vec<Account>,
    name: &Vec<u8>,
    message: &Vec<u8>,
) -> (r: Result<Effect, GreetingError>)
    requires
        program_id@.len() == 32,
        forall|i: int| 0 <= i < accounts@.len() ==> (#[trigger] accounts@[i]).key@.len() == 32,
    ensures
        result_view(r) == spec_create(
            program_id@,
            account_models(accounts@),
            name@,
            message@,
        ),
{
    if accounts.len() < 3 {
        return Err(GreetingError::NotEnoughAccounts);
    }
    let payer = &accounts[0];
    let target = &accounts[1];
    if !payer.is_signer {
        return Err(GreetingError::MissingRequiredSignature);
    }
    if !payer.is_writable {
        return Err(GreetingError::AccountNotWritable);
    }
    if !target.is_writable {
        return Err(GreetingError::AccountNotWritable);
    }
    let record = match GreetingAccountState::apply_create(
        copy_bytes(&payer.key),
        copy_bytes(name),
        copy_bytes(message),
    ) {
        Err(e) => return Err(e),
        Ok(rec) => rec,
    };
    match derive_address(program_id, &payer.key, name) {
        None => Err(GreetingError::InvalidAccountAddress),
        Some(derived) => {
            if !bytes_eq(&target.key, &derived) {
                return Err(GreetingError::InvalidAccountAddress);
            }
            if target.data.len() != 0 {
                return Err(GreetingError::AccountAlreadyInitialized);
            }
            Ok(Effect::Created { record_data: encode_record(&record) })
        },
    }
}

/// Handles an update, as [`spec_set`] describes.
fn process_set(accounts: &Vec<Account>, message: &Vec<u8>) -> (r: Result<Effect, GreetingError>)
    ensures
        result_view(r) == spec_set(account_models(accounts@), message@),
{
    if accounts.len() < 2 {
        return Err(GreetingError::NotEnoughAccounts);
    }
    let authority = &accounts[0];
    let target = &accounts[1];
    if !authority.is_signer {
        return Err(GreetingError::MissingRequiredSignature);
    }
    if !target.is_writable {
        return Err(GreetingError::AccountNotWritable);
    }
    if target.data.len() == 0 {
        return Err(GreetingError::AccountNotInitialized);
    }
    let rec = match decode_record(&target.data) {
        Err(_) => return Err(GreetingError::InvalidAccountData),
        Ok(rec) => rec,
    };
    if !bytes_eq(&authority.key, &rec.authority) {
        return Err(GreetingError::Unauthorized);
    }
    let new_rec = match rec.apply_set(copy_bytes(message)) {
        Err(e) => return Err(e),
        Ok(nr) => nr,
    };
    proof {
        crate::codec::lemma_decode_record_encodable(target.data@);
    }
    Ok(Effect::Updated { record_data: encode_record(&new_rec) })
}

/// Processes one invocation: decodes the instruction bytes, validates the
/// account list against the decoded variant's access rules, and returns
/// the single terminal write to perform — exactly as [`spec_process`]
/// describes. The dispatcher writes nothing itself, so any failure leaves
/// every account untouched.
pub fn process_instruction(
    program_id: &Vec<u8>,
    accounts: &Vec<Account>,
    instruction_data: &Vec<u8>,
) -> (r: Result<Effect, GreetingError>)
    requires
        program_id@.len() == 32,
        forall|i: int| 0 <= i < accounts@.len() ==> (#[trigger] accounts@[i]).key@.len() == 32,
    ensures
        result_view(r) == spec_process(
            program_id@,
            account_models(accounts@),
            instruction_data@,
        ),
{
    match decode_instruction(instruction_data) {
        Err(_) => Err(GreetingError::InvalidInstructionData),
        Ok(GreetingInstruction::CreateGreeting { name, message }) => process_create(
            program_id,
            accounts,
            &name,
            &message,
        ),
        Ok(GreetingInstruction::SetGreeting { message }) => process_set(accounts, &message),
    }
}

// ---------------------------------------------------------------------------
// Laws of the dispatcher
// ---------------------------------------------------------------------------
/// Law: whenever the account list is well-formed for a creation — three
/// accounts, the payer a writable signer, the record slot writable, empty,
/// and sitting exactly at the derived address — and both field lengths are
/// within bounds, the creation succeeds, and the bytes it stores are the
/// encoding of the record whose authority is the payer, whose fields are
/// the given ones, and whose counter is zero.
pub proof fn lemma_create_in_bounds(
    program: Seq<u8>,
    accounts: Seq<AccountModel>,
    name: Seq<u8>,
    message: Seq<u8>,
    derived: Seq<u8>,
)
    requires
        accounts.len() >= 3,
        accounts[0].is_signer,
        accounts[0].is_writable,
        accounts[1].is_writable,
        name.len() <= GreetingAccountState::MAX_NAME_LENGTH,
        message.len() <= GreetingAccountState::MAX_MESSAGE_LENGTH,
        derive_of(program, accounts[0].key, name) == Some(derived),
        accounts[1].key == derived,
        accounts[1].data.len() == 0,
    ensures
        spec_create(program, accounts, name, message) == Ok::<EffectModel, GreetingError>(
            EffectModel::Created {
                record_data: spec_encode_record(
                    RecordModel {
                        authority: accounts[0].key,
                        name: name,
                        message: message,
                        update_count: 0,
                    },
                ),
            },
        ),
{
}

/// Law: a creation whose record slot does not sit at the derived address
/// fails with `InvalidAccountAddress` — and, failing, asks the host for no
/// allocation and no write.
pub proof fn lemma_create_wrong_address(
    program: Seq<u8>,
    accounts: Seq<AccountModel>,
    name: Seq<u8>,
    message: Seq<u8>,
    derived: Seq<u8>,
)
    requires
        accounts.len() >= 3,
        accounts[0].is_signer,
        accounts[0].is_writable,
        accounts[1].is_writable,
        name.len() <= GreetingAccountState::MAX_NAME_LENGTH,
        message.len() <= GreetingAccountState::MAX_MESSAGE_LENGTH,
        derive_of(program, accounts[0].key, name) == Some(derived),
        accounts[1].key != derived,
    ensures
        spec_create(program, accounts, name, message) == Err::<EffectModel, GreetingError>(
            GreetingError::InvalidAccountAddress,
        ),
{
}

/// Law: an update signed by anyone other than the stored authority fails
/// with `Unauthorized` — and, failing, produces no write, so the stored
/// record stays bit-for-bit unchanged.
pub proof fn lemma_set_unauthorized(
    accounts: Seq<AccountModel>,
    message: Seq<u8>,
    rec: RecordModel,
)
    requires
        accounts.len() >= 2,
        accounts[0].is_signer,
        accounts[1].is_writable,
        accounts[1].data.len() != 0,
        spec_decode_record(accounts[1].data) == Ok::<RecordModel, crate::error::DecodeError>(rec),
        accounts[0].key != rec.authority,
    ensures
        spec_set(accounts, message) == Err::<EffectModel, GreetingError>(
            GreetingError::Unauthorized,
        ),
{
}

/// Law: an update signed by the stored authority with a message within
/// bounds succeeds, and the bytes it stores are the encoding of the record
/// with the same authority and name, the new message, and a counter one
/// higher (saturating).
pub proof fn lemma_set_updates(accounts: Seq<AccountModel>, message: Seq<u8>, rec: RecordModel)
    requires
        accounts.len() >= 2,
        accounts[0].is_signer,
        accounts[1].is_writable,
        accounts[1].data.len() != 0,
        spec_decode_record(accounts[1].data) == Ok::<RecordModel, crate::error::DecodeError>(rec),
        accounts[0].key == rec.authority,
        message.len() <= GreetingAccountState::MAX_MESSAGE_LENGTH,
    ensures
        spec_set(accounts, message) == Ok::<EffectModel, GreetingError>(
            EffectModel::Updated {
                record_data: spec_encode_record(
                    RecordModel {
                        authority: rec.authority,
                        name: rec.name,
                        message: message,
                        update_count: spec_saturating_inc(rec.update_count),
                    },
                ),
            },
        ),
{
}

/// Law: instruction bytes whose tag selects no known variant fail to
/// decode with `UnknownVariant`, and the whole invocation fails with
/// `InvalidInstructionData`, whatever the accounts.
pub proof fn lemma_unknown_tag(program: Seq<u8>, accounts: Seq<AccountModel>, data: Seq<u8>)
    requires
        data.len() > 0,
        data[0] != 0,
        data[0] != 1,
    ensures
        spec_decode_instruction(data) == Err::<InstructionModel, crate::error::DecodeError>(
            crate::error::DecodeError::UnknownVariant,
        ),
        spec_process(program, accounts, data) == Err::<EffectModel, GreetingError>(
            GreetingError::InvalidInstructionData,
        ),
{
}

} // verus!
