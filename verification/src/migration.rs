//! The migration that moves the channels and the opt-outs of a legacy configuration file into
//! the database.

use crate::collections::{lemma_all_kept, lemma_none_kept, StringSet};
use crate::error::ContextError;
use dashmap::DashMap;
use std::collections::VecDeque;
use vstd::prelude::*;

verus! {

/// Creates the table of joined channels.
pub const CREATE_CHANNEL_TABLE: &'static str = "
CREATE TABLE IF NOT EXISTS channel
(
    channel_id String CODEC(ZSTD(8))
)
ENGINE ReplacingMergeTree
ORDER BY channel_id;
            ";

/// Creates the table of opt-outs.
pub const CREATE_OPT_OUT_TABLE: &'static str = "
CREATE TABLE IF NOT EXISTS opt_out
(
    user_id String CODEC(ZSTD(8)),
    state UInt8 CODEC(ZSTD(1))
)
ENGINE ReplacingMergeTree
ORDER BY user_id;
          ";

/// The parts of a legacy configuration file that move into the database.
pub struct OldConfig {
    pub channels: StringSet,
    pub opt_out: DashMap<String, bool>,
}

/// A call of the database that inserts rows into a table.
pub enum InsertCall {
    /// Starts an insert into the table `channel`.
    OpenChannel,
    /// Writes one row of the table `channel`.
    WriteChannel { channel_id: String },
    /// Starts an insert into the table `opt_out`.
    OpenOptOut,
    /// Writes one row of the table `opt_out`.
    WriteOptOut { user_id: String, state: bool },
    /// Ends the insert that was started last.
    End,
}

/// What the migration needs next.
#[allow(inconsistent_fields)]
pub enum MigrationStep {
    /// Run a statement on the database.
    Execute { sql: &'static str, then: TableCreation },
    /// Read the configuration file that the command line names.
    LoadConfig(ConfigLoading),
    /// Read the legacy values out of the text of that file.
    ParseConfig { text: String, then: ConfigParsing },
    /// Make a call of an insert.
    Insert { call: InsertCall, then: RowInsertion },
    /// Write the current configuration back, without the legacy values.
    SaveConfig(ConfigSaving),
    /// Nothing.
    Done,
}

/// The migration while a table is being created.
pub enum TableCreation {
    Channel,
    OptOut,
}

/// The migration while the configuration file is being read.
pub struct ConfigLoading {}

/// The migration while the configuration is being parsed.
pub struct ConfigParsing {}

/// The migration while rows are being inserted.
pub struct RowInsertion {
    rest: VecDeque<InsertCall>,
}

/// The migration while the configuration is being written back.
pub struct ConfigSaving {}

/// The rows of the table `channel`.
pub open spec fn channel_rows(channels: Seq<String>) -> Seq<InsertCall> {
    channels.map_values(|channel_id: String| InsertCall::WriteChannel { channel_id })
}

/// The rows of the table `opt_out`.
pub open spec fn opt_out_rows(opt_out: Seq<(String, bool)>) -> Seq<InsertCall> {
    opt_out.map_values(
        |row: (String, bool)| InsertCall::WriteOptOut { user_id: row.0, state: row.1 },
    )
}

/// The calls that insert rows into a table: none without rows.
pub open spec fn table_calls(open: InsertCall, rows: Seq<InsertCall>) -> Seq<InsertCall> {
    if rows.len() == 0 {
        Seq::empty()
    } else {
        seq![open] + rows + seq![InsertCall::End]
    }
}

/// The calls that move legacy values into the database.
pub open spec fn insertions(channels: Seq<String>, opt_out: Seq<(String, bool)>) -> Seq<
    InsertCall,
> {
    table_calls(InsertCall::OpenChannel, channel_rows(channels)) + table_calls(
        InsertCall::OpenOptOut,
        opt_out_rows(opt_out),
    )
}

impl RowInsertion {
    /// The calls that are still to be made.
    pub closed spec fn rest(self) -> Seq<InsertCall> {
        self.rest@
    }
}

impl MigrationStep {
    /// Whether this is what is needed to make the given calls and then write the configuration.
    pub open spec fn makes(self, calls: Seq<InsertCall>) -> bool {
        match self {
            MigrationStep::Insert { call, then } => calls == seq![call] + then.rest(),
            MigrationStep::SaveConfig(_) => calls.len() == 0,
            _ => false,
        }
    }
}

/// The calls that move legacy values into the database.
pub fn insert_calls(channels: Vec<String>, opt_out: Vec<(String, bool)>) -> (calls: VecDeque<
    InsertCall,
>)
    ensures
        calls@ == insertions(channels@, opt_out@),
{
    let mut calls: VecDeque<InsertCall> = VecDeque::new();
    if channels.len() > 0 {
        calls.push_back(InsertCall::OpenChannel);
        for i in 0..channels.len()
            invariant
                calls@ =~= seq![InsertCall::OpenChannel] + channel_rows(channels@.take(i as int)),
        {
            calls.push_back(InsertCall::WriteChannel { channel_id: channels[i].clone() });
        }
        assert(channels@.take(channels@.len() as int) =~= channels@);
        calls.push_back(InsertCall::End);
    }
    assert(calls@ =~= table_calls(InsertCall::OpenChannel, channel_rows(channels@)));
    if opt_out.len() > 0 {
        let ghost before = calls@;
        calls.push_back(InsertCall::OpenOptOut);
        for i in 0..opt_out.len()
            invariant
                calls@ =~= before + seq![InsertCall::OpenOptOut] + opt_out_rows(
                    opt_out@.take(i as int),
                ),
        {
            calls.push_back(
                InsertCall::WriteOptOut { user_id: opt_out[i].0.clone(), state: opt_out[i].1 },
            );
        }
        assert(opt_out@.take(opt_out@.len() as int) =~= opt_out@);
        calls.push_back(InsertCall::End);
    }
    assert(calls@ =~= insertions(channels@, opt_out@));
    calls
}

fn next_insertion(calls: VecDeque<InsertCall>) -> (step: MigrationStep)
    ensures
        step.makes(calls@),
{
    let mut rest = calls;
    match rest.pop_front() {
        Some(call) => {
            assert(calls@ =~= seq![call] + rest@);
            MigrationStep::Insert { call, then: RowInsertion { rest } }
        },
        None => MigrationStep::SaveConfig(ConfigSaving {  }),
    }
}

/// Creates the tables of channels and opt-outs and fills them from the legacy configuration.
pub struct UserTablesMigration<'a, C> {
    /// The current configuration, which is written back at the end.
    pub config: &'a C,
}

impl<'a, C> UserTablesMigration<'a, C> {
    /// Starts the migration.
    pub fn run(&self) -> (step: MigrationStep)
        ensures
            step == (MigrationStep::Execute {
                sql: CREATE_CHANNEL_TABLE,
                then: TableCreation::Channel,
            }),
    {
        MigrationStep::Execute { sql: CREATE_CHANNEL_TABLE, then: TableCreation::Channel }
    }
}

impl TableCreation {
    /// Goes on when the database has answered.
    pub fn resume<E>(self, reply: Result<(), E>) -> (step: Result<MigrationStep, ContextError<E>>)
        ensures
            match reply {
                Err(error) => step == Err::<MigrationStep, _>(ContextError { context: None, error }),
                Ok(_) => match self {
                    TableCreation::Channel => step == Ok::<_, ContextError<E>>(
                        MigrationStep::Execute {
                            sql: CREATE_OPT_OUT_TABLE,
                            then: TableCreation::OptOut,
                        },
                    ),
                    TableCreation::OptOut => step matches Ok(MigrationStep::LoadConfig(_)),
                },
            },
    {
        match reply {
            Err(error) => Err(ContextError { context: None, error }),
            Ok(_) => match self {
                TableCreation::Channel => Ok(
                    MigrationStep::Execute {
                        sql: CREATE_OPT_OUT_TABLE,
                        then: TableCreation::OptOut,
                    },
                ),
                TableCreation::OptOut => Ok(MigrationStep::LoadConfig(ConfigLoading {  })),
            },
        }
    }
}

impl ConfigLoading {
    /// Goes on when the file has been read.
    pub fn resume<E>(self, reply: Result<String, E>) -> (step: Result<
        MigrationStep,
        ContextError<E>,
    >)
        ensures
            match reply {
                Err(error) => step matches Err(failure) && failure.says(
                    "Failed to load legacy config values"@,
                    error,
                ),
                Ok(content) => step matches Ok(MigrationStep::ParseConfig { text, .. }) && text
                    == content,
            },
    {
        match reply {
            Err(error) => Err(
                ContextError { context: Some("Failed to load legacy config values"), error },
            ),
            Ok(text) => Ok(MigrationStep::ParseConfig { text, then: ConfigParsing {  } }),
        }
    }
}

impl ConfigParsing {
    /// Goes on when the legacy values have been read.
    pub fn resume<E>(self, reply: Result<OldConfig, E>) -> (step: Result<
        MigrationStep,
        ContextError<E>,
    >)
        ensures
            match reply {
                Err(error) => step matches Err(failure) && failure.says(
                    "Config deserialization error"@,
                    error,
                ),
                Ok(config) => step matches Ok(next) && exists|
                    channels: Seq<String>,
                    opt_out: Seq<(String, bool)>,
                |
                    crate::collections::lists_members(channels, config.channels@)
                        && crate::collections::lists_entries(
                        opt_out,
                        crate::collections::map_contents(config.opt_out),
                    ) && next.makes(#[trigger] insertions(channels, opt_out)),
            },
    {
        match reply {
            Err(error) => Err(
                ContextError { context: Some("Config deserialization error"), error },
            ),
            Ok(config) => {
                let channels = config.channels.to_vec();
                let opt_out = crate::collections::map_rows(config.opt_out);
                let step = next_insertion(insert_calls(channels, opt_out));
                assert(step.makes(insertions(channels@, opt_out@)));
                Ok(step)
            },
        }
    }
}

impl RowInsertion {
    /// Goes on when the database has answered.
    pub fn resume<E>(self, reply: Result<(), E>) -> (step: Result<MigrationStep, ContextError<E>>)
        ensures
            match reply {
                Err(error) => step == Err::<MigrationStep, _>(ContextError { context: None, error }),
                Ok(_) => step matches Ok(next) && next.makes(self.rest()),
            },
    {
        match reply {
            Err(error) => Err(ContextError { context: None, error }),
            Ok(_) => Ok(next_insertion(self.rest)),
        }
    }
}

impl ConfigSaving {
    /// Ends the migration. A configuration that could not be written back does no harm: the
    /// legacy values that it still holds are ignored.
    pub fn resume<E>(self, reply: Result<(), E>) -> (step: MigrationStep)
        ensures
            step == MigrationStep::Done,
    {
        MigrationStep::Done
    }
}

/// Whether a call writes a row.
pub open spec fn writes_row(call: InsertCall) -> bool {
    call is WriteChannel || call is WriteOptOut
}

/// The rows that are written are those of the legacy values, each once and in order, and nothing
/// is called for where there is nothing to move.
#[verifier::spinoff_prover]
pub proof fn law_legacy_values_are_written_once(
    channels: Seq<String>,
    opt_out: Seq<(String, bool)>,
)
    ensures
        insertions(channels, opt_out).filter(|call: InsertCall| writes_row(call)) == channel_rows(
            channels,
        ) + opt_out_rows(opt_out),
        channels.len() == 0 && opt_out.len() == 0 ==> insertions(channels, opt_out).len() == 0,
{
    let pred = |call: InsertCall| writes_row(call);
    let of_channels = table_calls(InsertCall::OpenChannel, channel_rows(channels));
    let of_opt_outs = table_calls(InsertCall::OpenOptOut, opt_out_rows(opt_out));
    assert(of_channels.filter(pred) == channel_rows(channels)) by {
        lemma_rows_written(InsertCall::OpenChannel, channel_rows(channels));
    }
    assert(of_opt_outs.filter(pred) == opt_out_rows(opt_out)) by {
        lemma_rows_written(InsertCall::OpenOptOut, opt_out_rows(opt_out));
    }
    Seq::filter_distributes_over_add(of_channels, of_opt_outs, pred);
}

#[verifier::spinoff_prover]
proof fn lemma_rows_written(open: InsertCall, rows: Seq<InsertCall>)
    requires
        !writes_row(open),
        forall|i: int| 0 <= i < rows.len() ==> writes_row(#[trigger] rows[i]),
    ensures
        table_calls(open, rows).filter(|call: InsertCall| writes_row(call)) == rows,
{
    let pred = |call: InsertCall| writes_row(call);
    if rows.len() == 0 {
        lemma_none_kept(Seq::<InsertCall>::empty(), pred);
    } else {
        let opening = seq![open];
        let end = seq![InsertCall::End];
        lemma_none_kept(opening, pred);
        lemma_none_kept(end, pred);
        lemma_all_kept(rows, pred);
        Seq::filter_distributes_over_add(opening + rows, end, pred);
        Seq::filter_distributes_over_add(opening, rows, pred);
        assert(opening.filter(pred) + rows + end.filter(pred) =~= rows);
    }
}

/// What is called for one table does not depend on the other one. Where a table has rows, its
/// insert is opened, each row is written, in order, and the insert is ended; where it has none,
/// nothing is called.
pub proof fn law_tables_are_filled_independently(
    channels: Seq<String>,
    opt_out: Seq<(String, bool)>,
)
    ensures
        ({
            let of_channels = insertions(channels, Seq::empty());
            let of_opt_outs = insertions(Seq::empty(), opt_out);
            &&& insertions(channels, opt_out) == of_channels + of_opt_outs
            &&& channels.len() == 0 ==> of_channels.len() == 0
            &&& channels.len() > 0 ==> {
                &&& of_channels.len() == channels.len() + 2
                &&& of_channels[0] is OpenChannel
                &&& forall|i: int|
                    0 <= i < channels.len() ==> of_channels[i + 1] == (InsertCall::WriteChannel {
                        channel_id: #[trigger] channels[i],
                    })
                &&& of_channels.last() is End
            }
            &&& opt_out.len() == 0 ==> of_opt_outs.len() == 0
            &&& opt_out.len() > 0 ==> {
                &&& of_opt_outs.len() == opt_out.len() + 2
                &&& of_opt_outs[0] is OpenOptOut
                &&& forall|i: int|
                    0 <= i < opt_out.len() ==> of_opt_outs[i + 1] == (InsertCall::WriteOptOut {
                        user_id: (#[trigger] opt_out[i]).0,
                        state: opt_out[i].1,
                    })
                &&& of_opt_outs.last() is End
            }
        }),
{
    let of_channels = insertions(channels, Seq::empty());
    let of_opt_outs = insertions(Seq::empty(), opt_out);
    assert(insertions(channels, opt_out) =~= of_channels + of_opt_outs);
}

/// Every insert that is opened is ended: behind it come only rows of its table, and then its end,
/// before anything else is opened and before the calls are over. Every row lies in such an
/// insert.
pub proof fn law_inserts_are_ended(channels: Seq<String>, opt_out: Seq<(String, bool)>, i: int)
    requires
        0 <= i < insertions(channels, opt_out).len(),
    ensures
        ({
            let calls = insertions(channels, opt_out);
            &&& calls[i] is OpenChannel ==> exists|j: int|
                i < j < calls.len() && #[trigger] calls[j] is End && forall|k: int|
                    i < k < j ==> #[trigger] calls[k] is WriteChannel
            &&& calls[i] is OpenOptOut ==> exists|j: int|
                i < j < calls.len() && #[trigger] calls[j] is End && forall|k: int|
                    i < k < j ==> #[trigger] calls[k] is WriteOptOut
            &&& calls[i] is WriteChannel || calls[i] is WriteOptOut ==> exists|j: int|
                0 <= j < i && (#[trigger] calls[j] is OpenChannel || calls[j] is OpenOptOut)
                    && (calls[j] is OpenChannel <==> calls[i] is WriteChannel) && forall|k: int|
                    j < k < i ==> #[trigger] calls[k] !is End
        }),
{
    law_tables_are_filled_independently(channels, opt_out);
    let calls = insertions(channels, opt_out);
    let first = insertions(channels, Seq::empty());
    let second = insertions(Seq::empty(), opt_out);
    assert(calls =~= first + second);
    assert forall|k: int| 0 < k <= channels.len() && channels.len() > 0 implies
        #[trigger] calls[k] is WriteChannel by {
        assert(first[k - 1 + 1] == (InsertCall::WriteChannel { channel_id: channels[k - 1] }));
    }
    let start = first.len() as int;
    assert forall|k: int| start < k <= start + opt_out.len() && opt_out.len() > 0 implies
        #[trigger] calls[k] is WriteOptOut by {
        let n = k - start - 1;
        assert(second[n + 1] == (InsertCall::WriteOptOut {
            user_id: opt_out[n].0,
            state: opt_out[n].1,
        }));
    }
    if i < start {
        assert(calls[0] is OpenChannel);
        assert(calls[start - 1] is End);
    } else {
        assert(calls[start] is OpenOptOut);
        assert(calls[calls.len() - 1] is End);
    }
}

/// The calls are made one after the other, from the first to the last, and only then is the
/// configuration written.
pub proof fn law_calls_are_made_in_order(step: MigrationStep, calls: Seq<InsertCall>)
    requires
        step.makes(calls),
    ensures
        calls.len() > 0 ==> (step matches MigrationStep::Insert { call, then } && call == calls[0]
            && then.rest() == calls.drop_first()),
        calls.len() == 0 ==> step is SaveConfig,
{
    if let MigrationStep::Insert { call, then } = step {
        assert(calls.drop_first() =~= then.rest());
    }
}

} // verus!
