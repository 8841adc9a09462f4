//! The rules of the checkpoint store: how the record of a filter is found or
//! made, and the order of the steps that apply a batch of logs and advance the
//! checkpoint in one transaction.
use vstd::prelude::*;

verus! {

/// The highest block that the store's signed 64-bit column can hold.
pub const MAX_STORED_BLOCK: u64 = 9223372036854775807;

/// Why the store could not serve.
#[derive(Clone, Copy, Debug, PartialEq, Eq, Structural)]
pub enum StorageError {
    /// A block number does not fit the column, or the column holds a
    /// negative number.
    BlockOutOfRange,
    /// The database reported a failure.
    Backend,
}

/// The column value for `block`; an error where the column cannot hold it.
pub fn block_to_column(block: u64) -> (column: Result<i64, StorageError>)
    ensures
        match column {
            Ok(value) => block <= MAX_STORED_BLOCK && value == block,
            Err(error) => block > MAX_STORED_BLOCK && error == StorageError::BlockOutOfRange,
        },
{
    if block <= MAX_STORED_BLOCK {
        Ok(block as i64)
    } else {
        Err(StorageError::BlockOutOfRange)
    }
}

/// The block that a column value stands for; an error where it is negative.
pub fn column_to_block(column: i64) -> (block: Result<u64, StorageError>)
    ensures
        match block {
            Ok(value) => column >= 0 && value == column,
            Err(error) => column < 0 && error == StorageError::BlockOutOfRange,
        },
{
    if column >= 0 {
        Ok(column as u64)
    } else {
        Err(StorageError::BlockOutOfRange)
    }
}

/// Where the lookup of a filter's record stands.
#[derive(Clone, Copy, Debug, PartialEq, Eq, Structural)]
pub enum LookupState {
    /// The schema is being created if it is not there.
    EnsuringSchema,
    /// The record is being looked up by the filter's identity.
    LookingUp,
    /// No record was found; one is being inserted.
    Inserting,
    /// The checkpoint is known.
    Resolved { last_observed_block: u64, created: bool },
    /// The lookup has failed.
    Failed { error: StorageError },
}

/// What the database answered.
#[derive(Clone, Copy, Debug, PartialEq, Eq, Structural)]
pub enum LookupEvent {
    /// The schema is there.
    SchemaReady,
    /// A record exists, with this value in its checkpoint column.
    Found { column: i64 },
    /// No record exists.
    NotFound,
    /// The new record has been written.
    Inserted,
    /// The database reported a failure.
    Failed,
}

/// What to ask of the database next.
#[derive(Clone, Copy, Debug, PartialEq, Eq, Structural)]
pub enum LookupAction {
    /// Create the schema if it is not there.
    EnsureSchema,
    /// Look the record up by the filter's identity.
    Select,
    /// Insert a record with this value in its checkpoint column.
    Insert { column: i64 },
    /// Hand the checkpoint to the caller.
    Return { last_observed_block: u64, created: bool },
    /// Hand the error to the caller.
    Fail { error: StorageError },
}

/// The lookup after `event`, for a filter that starts at `start_block`, and
/// what it asks for. A record that exists gives its own checkpoint and the
/// filter's start block is ignored; where none exists one is inserted with
/// the start block as its checkpoint.
pub open spec fn lookup_transition(state: LookupState, start_block: u64, event: LookupEvent) -> (
    LookupState,
    LookupAction,
) {
    match (state, event) {
        (LookupState::Resolved { last_observed_block, created }, _) => (
            state,
            LookupAction::Return { last_observed_block, created },
        ),
        (LookupState::Failed { error }, _) => (state, LookupAction::Fail { error }),
        (LookupState::EnsuringSchema, LookupEvent::SchemaReady) => (
            LookupState::LookingUp,
            LookupAction::Select,
        ),
        (LookupState::LookingUp, LookupEvent::Found { column }) => if column >= 0 {
            (
                LookupState::Resolved { last_observed_block: column as u64, created: false },
                LookupAction::Return { last_observed_block: column as u64, created: false },
            )
        } else {
            (
                LookupState::Failed { error: StorageError::BlockOutOfRange },
                LookupAction::Fail { error: StorageError::BlockOutOfRange },
            )
        },
        (LookupState::LookingUp, LookupEvent::NotFound) => if start_block <= MAX_STORED_BLOCK {
            (LookupState::Inserting, LookupAction::Insert { column: start_block as i64 })
        } else {
            (
                LookupState::Failed { error: StorageError::BlockOutOfRange },
                LookupAction::Fail { error: StorageError::BlockOutOfRange },
            )
        },
        (LookupState::Inserting, LookupEvent::Inserted) => (
            LookupState::Resolved { last_observed_block: start_block, created: true },
            LookupAction::Return { last_observed_block: start_block, created: true },
        ),
        _ => (
            LookupState::Failed { error: StorageError::Backend },
            LookupAction::Fail { error: StorageError::Backend },
        ),
    }
}

/// The lookup of the record of one filter, which makes the record where there
/// is none.
pub struct GetOrCreate {
    pub start_block: u64,
    pub state: LookupState,
}

impl GetOrCreate {
    /// A lookup for a filter that starts at `start_block`. It begins by
    /// making sure of the schema.
    pub fn new(start_block: u64) -> (lookup: (GetOrCreate, LookupAction))
        ensures
            lookup.0.start_block == start_block,
            lookup.0.state == LookupState::EnsuringSchema,
            lookup.1 == LookupAction::EnsureSchema,
    {
        (GetOrCreate { start_block, state: LookupState::EnsuringSchema }, LookupAction::EnsureSchema)
    }

    /// Takes in what the database answered and says what to ask next.
    pub fn step(&mut self, event: LookupEvent) -> (action: LookupAction)
        ensures
            (final(self).state, action) == lookup_transition(
                old(self).state,
                old(self).start_block,
                event,
            ),
            final(self).start_block == old(self).start_block,
    {
        let (state, action) = match (self.state, event) {
            (LookupState::Resolved { last_observed_block, created }, _) => (
                self.state,
                LookupAction::Return { last_observed_block, created },
            ),
            (LookupState::Failed { error }, _) => (self.state, LookupAction::Fail { error }),
            (LookupState::EnsuringSchema, LookupEvent::SchemaReady) => (
                LookupState::LookingUp,
                LookupAction::Select,
            ),
            (LookupState::LookingUp, LookupEvent::Found { column }) => match column_to_block(
                column,
            ) {
                Ok(last_observed_block) => (
                    LookupState::Resolved { last_observed_block, created: false },
                    LookupAction::Return { last_observed_block, created: false },
                ),
                Err(error) => (LookupState::Failed { error }, LookupAction::Fail { error }),
            },
            (LookupState::LookingUp, LookupEvent::NotFound) => match block_to_column(
                self.start_block,
            ) {
                Ok(column) => (LookupState::Inserting, LookupAction::Insert { column }),
                Err(error) => (LookupState::Failed { error }, LookupAction::Fail { error }),
            },
            (LookupState::Inserting, LookupEvent::Inserted) => (
                LookupState::Resolved { last_observed_block: self.start_block, created: true },
                LookupAction::Return { last_observed_block: self.start_block, created: true },
            ),
            _ => (
                LookupState::Failed { error: StorageError::Backend },
                LookupAction::Fail { error: StorageError::Backend },
            ),
        };
        self.state = state;
        action
    }
}

/// A record that the store holds is returned with its own checkpoint,
/// whatever start block the filter names.
pub proof fn lemma_existing_record_wins(start_block: u64, column: i64)
    requires
        column >= 0,
    ensures
        ({
            let looking = lookup_transition(
                LookupState::EnsuringSchema,
                start_block,
                LookupEvent::SchemaReady,
            ).0;
            lookup_transition(looking, start_block, LookupEvent::Found { column }).1 == (
            LookupAction::Return { last_observed_block: column as u64, created: false })
        }),
{
}

/// Where the store holds no record, one is inserted with the filter's start
/// block, and that block is returned as the checkpoint.
pub proof fn lemma_missing_record_is_created(start_block: u64)
    requires
        start_block <= MAX_STORED_BLOCK,
    ensures
        ({
            let looking = lookup_transition(
                LookupState::EnsuringSchema,
                start_block,
                LookupEvent::SchemaReady,
            ).0;
            let (inserting, insert) = lookup_transition(looking, start_block, LookupEvent::NotFound);
            &&& insert == (LookupAction::Insert { column: start_block as i64 })
            &&& lookup_transition(inserting, start_block, LookupEvent::Inserted).1 == (
            LookupAction::Return { last_observed_block: start_block, created: true })
        }),
{
}

/// Where the transaction of a tick stands.
#[derive(Clone, Copy, Debug, PartialEq, Eq, Structural)]
pub enum ApplyState {
    /// A transaction is being opened.
    Opening,
    /// The processor is at work on the logs, inside the transaction.
    Processing,
    /// The checkpoint is being written, inside the transaction.
    Updating,
    /// The transaction is being committed.
    Committing,
    /// The transaction is committed: the logs are applied and the checkpoint
    /// has advanced.
    Committed,
    /// The transaction was given up: nothing was applied and the checkpoint
    /// is where it was.
    Aborted { error: StorageError },
}

/// What happened to the step that was asked for last.
#[derive(Clone, Copy, Debug, PartialEq, Eq, Structural)]
pub enum ApplyEvent {
    /// The transaction is open.
    Opened,
    /// The processor has returned without an error.
    Processed,
    /// The checkpoint has been written.
    Updated,
    /// The commit went through.
    Committed,
    /// The step failed.
    Failed,
}

/// The next step of the transaction.
#[derive(Clone, Copy, Debug, PartialEq, Eq, Structural)]
pub enum ApplyAction {
    /// Open a transaction.
    Begin,
    /// Call the processor with the logs and the transaction.
    Process { prev_checkpoint: u64, new_checkpoint: u64, chain_id: u64 },
    /// Write this value to the checkpoint column of the filter's record.
    UpdateCheckpoint { column: i64 },
    /// Commit the transaction.
    Commit,
    /// Report that the tick is applied.
    Done,
    /// Roll back what is open and report the error.
    Abort { error: StorageError },
}

/// One run of apply-and-checkpoint.
pub struct ApplyUnit {
    pub prev_checkpoint: u64,
    pub new_checkpoint: u64,
    pub chain_id: u64,
    pub state: ApplyState,
}

/// The transaction after `event`, and its next step. The steps come in one
/// order: open, process, write the checkpoint, commit. Whatever fails, and
/// whatever comes out of turn, gives the transaction up.
pub open spec fn apply_transition(
    state: ApplyState,
    prev_checkpoint: u64,
    new_checkpoint: u64,
    chain_id: u64,
    event: ApplyEvent,
) -> (ApplyState, ApplyAction) {
    match (state, event) {
        (ApplyState::Committed, _) => (state, ApplyAction::Done),
        (ApplyState::Aborted { error }, _) => (state, ApplyAction::Abort { error }),
        (ApplyState::Opening, ApplyEvent::Opened) => (
            ApplyState::Processing,
            ApplyAction::Process { prev_checkpoint, new_checkpoint, chain_id },
        ),
        (ApplyState::Processing, ApplyEvent::Processed) => if new_checkpoint <= MAX_STORED_BLOCK {
            (ApplyState::Updating, ApplyAction::UpdateCheckpoint { column: new_checkpoint as i64 })
        } else {
            (
                ApplyState::Aborted { error: StorageError::BlockOutOfRange },
                ApplyAction::Abort { error: StorageError::BlockOutOfRange },
            )
        },
        (ApplyState::Updating, ApplyEvent::Updated) => (ApplyState::Committing, ApplyAction::Commit),
        (ApplyState::Committing, ApplyEvent::Committed) => (
            ApplyState::Committed,
            ApplyAction::Done,
        ),
        _ => (
            ApplyState::Aborted { error: StorageError::Backend },
            ApplyAction::Abort { error: StorageError::Backend },
        ),
    }
}

impl ApplyUnit {
    /// A transaction that is to move the checkpoint from `prev_checkpoint` to
    /// `new_checkpoint`. It begins by opening.
    pub fn new(prev_checkpoint: u64, new_checkpoint: u64, chain_id: u64) -> (unit: (
        ApplyUnit,
        ApplyAction,
    ))
        ensures
            unit.0.prev_checkpoint == prev_checkpoint,
            unit.0.new_checkpoint == new_checkpoint,
            unit.0.chain_id == chain_id,
            unit.0.state == ApplyState::Opening,
            unit.1 == ApplyAction::Begin,
    {
        (
            ApplyUnit { prev_checkpoint, new_checkpoint, chain_id, state: ApplyState::Opening },
            ApplyAction::Begin,
        )
    }

    /// Takes in what happened to the last step and says which comes next.
    pub fn step(&mut self, event: ApplyEvent) -> (action: ApplyAction)
        ensures
            (final(self).state, action) == apply_transition(
                old(self).state,
                old(self).prev_checkpoint,
                old(self).new_checkpoint,
                old(self).chain_id,
                event,
            ),
            final(self).prev_checkpoint == old(self).prev_checkpoint,
            final(self).new_checkpoint == old(self).new_checkpoint,
            final(self).chain_id == old(self).chain_id,
    {
        let (state, action) = match (self.state, event) {
            (ApplyState::Committed, _) => (self.state, ApplyAction::Done),
            (ApplyState::Aborted { error }, _) => (self.state, ApplyAction::Abort { error }),
            (ApplyState::Opening, ApplyEvent::Opened) => (
                ApplyState::Processing,
                ApplyAction::Process {
                    prev_checkpoint: self.prev_checkpoint,
                    new_checkpoint: self.new_checkpoint,
                    chain_id: self.chain_id,
                },
            ),
            (ApplyState::Processing, ApplyEvent::Processed) => match block_to_column(
                self.new_checkpoint,
            ) {
                Ok(column) => (ApplyState::Updating, ApplyAction::UpdateCheckpoint { column }),
                Err(error) => (ApplyState::Aborted { error }, ApplyAction::Abort { error }),
            },
            (ApplyState::Updating, ApplyEvent::Updated) => (
                ApplyState::Committing,
                ApplyAction::Commit,
            ),
            (ApplyState::Committing, ApplyEvent::Committed) => (
                ApplyState::Committed,
                ApplyAction::Done,
            ),
            _ => (
                ApplyState::Aborted { error: StorageError::Backend },
                ApplyAction::Abort { error: StorageError::Backend },
            ),
        };
        self.state = state;
        action
    }
}

/// The checkpoint is written only after the processor has succeeded, and
/// with the new checkpoint; the commit is asked for only after the checkpoint
/// has been written; and the transaction counts as applied only after the
/// commit went through.
pub proof fn lemma_steps_in_order(
    state: ApplyState,
    prev_checkpoint: u64,
    new_checkpoint: u64,
    chain_id: u64,
    event: ApplyEvent,
)
    ensures
        ({
            let (after, action) = apply_transition(
                state,
                prev_checkpoint,
                new_checkpoint,
                chain_id,
                event,
            );
            &&& action is UpdateCheckpoint ==> state == ApplyState::Processing && event
                == ApplyEvent::Processed && action == (ApplyAction::UpdateCheckpoint {
                column: new_checkpoint as i64,
            }) && new_checkpoint <= MAX_STORED_BLOCK
            &&& action == ApplyAction::Commit ==> state == ApplyState::Updating && event
                == ApplyEvent::Updated
            &&& after == ApplyState::Committed ==> state == ApplyState::Committed || (state
                == ApplyState::Committing && event == ApplyEvent::Committed)
        }),
{
}

/// A failure at any step before the commit went through gives the
/// transaction up, and once given up it is never committed: no later event
/// makes it write the checkpoint or commit.
pub proof fn lemma_failure_aborts(
    state: ApplyState,
    prev_checkpoint: u64,
    new_checkpoint: u64,
    chain_id: u64,
    later: ApplyEvent,
)
    requires
        state != ApplyState::Committed,
    ensures
        ({
            let (after, action) = apply_transition(
                state,
                prev_checkpoint,
                new_checkpoint,
                chain_id,
                ApplyEvent::Failed,
            );
            let (last, next) = apply_transition(
                after,
                prev_checkpoint,
                new_checkpoint,
                chain_id,
                later,
            );
            &&& after is Aborted
            &&& action is Abort
            &&& last == after
            &&& next == action
        }),
{
}

} // verus!
