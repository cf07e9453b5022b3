//! Refilling a store from the rows of an outside table.
//!
//! A run goes from idle to running and ends completed, with the number of
//! vectors it put into the store, or failed. This library decides what the
//! run asks of the table and what becomes of each row; whoever owns the
//! table reads the rows and hands them over. A row whose vector is not of
//! the store's length is skipped and counted, and the run goes on.
use crate::error::VexusError;
use crate::store::{lemma_insert_keeps_tally, VexusIndex, SCALAR_BYTES};
use vstd::prelude::*;

verus! {

/// The rows that a run can ask for.
#[derive(Debug, Clone, Copy, PartialEq, Eq, Structural)]
pub enum Selection {
    /// The vector of every tag that has one.
    Tags,
    /// The vector of every chunk that has one, among the files of one
    /// diary.
    ChunksOfDiary,
}

/// What a run asks of the table: a selection, and the name to bind to it
/// where the run was given one.
#[derive(Debug, Clone, PartialEq, Eq)]
pub struct RecoveryQuery {
    pub selection: Selection,
    pub diary_name: Option<String>,
}

/// One row of the table: its id, which becomes the vector's label, and the
/// bytes of its vector.
#[derive(Debug, Clone, PartialEq, Eq)]
pub struct RecoveryRow {
    pub id: i64,
    pub vector: Vec<u8>,
}

/// Where a run stands.
#[derive(Debug, Clone, PartialEq, Eq)]
pub enum RecoveryState {
    /// Not begun.
    Idle,
    /// Taking rows.
    Running,
    /// Ended, having put `count` vectors into the store.
    Completed { count: usize },
    /// Ended because the table could not be read.
    Failed { reason: String },
}

/// The figures of a run.
#[derive(Debug, Clone, Copy, PartialEq, Eq, Structural)]
pub struct RecoveryReport {
    /// Rows whose vector went into the store.
    pub inserted: usize,
    /// Rows whose vector was not of the store's length.
    pub skipped: usize,
    /// Rows whose vector the store could not take.
    pub rejected: usize,
}

impl RecoveryReport {
    /// The figures before any row.
    pub open spec fn none() -> RecoveryReport {
        RecoveryReport { inserted: 0, skipped: 0, rejected: 0 }
    }

    /// The figures after one more row was inserted.
    pub open spec fn and_inserted(self) -> RecoveryReport {
        RecoveryReport { inserted: (self.inserted + 1) as usize, ..self }
    }

    /// The figures after one more row was skipped.
    pub open spec fn and_skipped(self) -> RecoveryReport {
        RecoveryReport { skipped: (self.skipped + 1) as usize, ..self }
    }

    /// The figures after one more row was rejected.
    pub open spec fn and_rejected(self) -> RecoveryReport {
        RecoveryReport { rejected: (self.rejected + 1) as usize, ..self }
    }

    /// The rows that the figures count.
    pub open spec fn rows(self) -> nat {
        (self.inserted + self.skipped + self.rejected) as nat
    }
}

/// One run of recovery.
pub struct RecoverTask {
    db_path: String,
    table_type: String,
    filter_diary_name: Option<String>,
    state: RecoveryState,
    report: RecoveryReport,
}

/// The name of a diary, if there is one, as plain characters.
pub open spec fn name_of(name: Option<String>) -> Option<Seq<char>> {
    match name {
        Some(text) => Some(text@),
        None => None,
    }
}

/// The label under which the row with `id` is kept: the id's 64 bits, read
/// as a number without sign.
pub open spec fn label_of(id: i64) -> u64 {
    id as u64
}

/// Whether a vector of `byte_len` bytes has `dimensions` scalars.
pub open spec fn sized(dimensions: u32, byte_len: nat) -> bool {
    byte_len == SCALAR_BYTES * dimensions
}

/// Whether the vector of `row` has `dimensions` scalars.
pub open spec fn fitting(dimensions: u32, row: RecoveryRow) -> bool {
    sized(dimensions, row.vector@.len())
}

/// How many of the first `upto` rows have a vector that is not of
/// `dimensions` scalars.
pub open spec fn misfits(rows: Seq<RecoveryRow>, dimensions: u32, upto: nat) -> nat
    decreases upto,
{
    if upto == 0 {
        0
    } else {
        let earlier = misfits(rows, dimensions, (upto - 1) as nat);
        if sized(dimensions, rows[upto - 1].vector@.len()) {
            earlier
        } else {
            earlier + 1
        }
    }
}

/// The vectors of a store that held `before`, after each of the first
/// `upto` rows that has a vector of `dimensions` scalars went in, one after
/// the other.
pub open spec fn recovered(
    before: Map<u64, Seq<u8>>,
    rows: Seq<RecoveryRow>,
    dimensions: u32,
    upto: nat,
) -> Map<u64, Seq<u8>>
    decreases upto,
{
    if upto == 0 {
        before
    } else {
        let earlier = recovered(before, rows, dimensions, (upto - 1) as nat);
        let row = rows[upto - 1];
        if sized(dimensions, row.vector@.len()) {
            earlier.insert(label_of(row.id), row.vector@)
        } else {
            earlier
        }
    }
}

/// How many of the first `upto` rows have a vector of `dimensions` scalars
/// and a label that the store did not hold when their turn came.
pub open spec fn recovered_fresh(
    before: Map<u64, Seq<u8>>,
    rows: Seq<RecoveryRow>,
    dimensions: u32,
    upto: nat,
) -> nat
    decreases upto,
{
    if upto == 0 {
        0
    } else {
        let held = recovered(before, rows, dimensions, (upto - 1) as nat);
        let earlier = recovered_fresh(before, rows, dimensions, (upto - 1) as nat);
        let row = rows[upto - 1];
        if sized(dimensions, row.vector@.len()) && !held.contains_key(label_of(row.id)) {
            earlier + 1
        } else {
            earlier
        }
    }
}

/// Whether the rows that have a vector of `dimensions` scalars, among the
/// first `upto`, bring labels that `before` does not hold and that differ
/// from one another.
pub open spec fn brings_new_labels(
    before: Map<u64, Seq<u8>>,
    rows: Seq<RecoveryRow>,
    dimensions: u32,
    upto: nat,
) -> bool {
    &&& forall|i: int|
        0 <= i < upto && fitting(dimensions, #[trigger] rows[i]) ==> !before.contains_key(
            label_of(rows[i].id),
        )
    &&& forall|i: int, j: int|
        0 <= i < j < upto && fitting(dimensions, #[trigger] rows[i]) && fitting(
            dimensions,
            #[trigger] rows[j],
        ) ==> label_of(rows[i].id) != label_of(rows[j].id)
}

/// Recovery holds every label that the store held and every label that a
/// row of the right length brought, and no other.
pub proof fn lemma_recovered_labels(
    before: Map<u64, Seq<u8>>,
    rows: Seq<RecoveryRow>,
    dimensions: u32,
    upto: nat,
    label: u64,
)
    requires
        upto <= rows.len(),
    ensures
        recovered(before, rows, dimensions, upto).contains_key(label) <==> {
            ||| before.contains_key(label)
            ||| exists|i: int|
                0 <= i < upto && fitting(dimensions, #[trigger] rows[i]) && label_of(rows[i].id)
                    == label
        },
    decreases upto,
{
    if upto > 0 {
        let last = (upto - 1) as nat;
        lemma_recovered_labels(before, rows, dimensions, last, label);
        let earlier = recovered(before, rows, dimensions, last);
        if recovered(before, rows, dimensions, upto).contains_key(label) {
            if !earlier.contains_key(label) {
                let row = rows[last as int];
                assert(fitting(dimensions, row) && label_of(row.id) == label);
            }
        }
    }
}

/// Where the rows of the right length bring labels that are new to the
/// store and differ from one another, every such row adds one vector: the
/// store counts as many more as there are rows of the right length, which
/// are all the rows but the misfits.
pub proof fn lemma_recovery_counts_every_row(
    before: Map<u64, Seq<u8>>,
    rows: Seq<RecoveryRow>,
    dimensions: u32,
    upto: nat,
)
    requires
        upto <= rows.len(),
        brings_new_labels(before, rows, dimensions, upto),
    ensures
        recovered_fresh(before, rows, dimensions, upto) + misfits(rows, dimensions, upto) == upto,
    decreases upto,
{
    if upto > 0 {
        let last = (upto - 1) as nat;
        lemma_recovery_counts_every_row(before, rows, dimensions, last);
        let row = rows[last as int];
        if sized(dimensions, row.vector@.len()) {
            lemma_recovered_labels(before, rows, dimensions, last, label_of(row.id));
        }
    }
}

impl RecoverTask {
    /// A run that has not begun.
    pub fn new(db_path: String, table_type: String, filter_diary_name: Option<String>) -> (task:
        RecoverTask)
        ensures
            task.db_path()@ == db_path@,
            task.table_type()@ == table_type@,
            name_of(task.filter_diary_name()) == name_of(filter_diary_name),
            *task.state() == RecoveryState::Idle,
            task.report() == RecoveryReport::none(),
    {
        RecoverTask {
            db_path,
            table_type,
            filter_diary_name,
            state: RecoveryState::Idle,
            report: RecoveryReport { inserted: 0, skipped: 0, rejected: 0 },
        }
    }

    /// Where the table is.
    pub closed spec fn spec_db_path(&self) -> &String {
        &self.db_path
    }

    /// The kind of rows asked for, as the caller wrote it.
    pub closed spec fn table_type(&self) -> String {
        self.table_type
    }

    /// The diary to which the rows are narrowed, if any.
    pub closed spec fn filter_diary_name(&self) -> Option<String> {
        self.filter_diary_name
    }

    /// Where the run stands.
    pub closed spec fn spec_state(&self) -> &RecoveryState {
        &self.state
    }

    /// The figures of the run so far.
    pub closed spec fn spec_report(&self) -> RecoveryReport {
        self.report
    }

    /// What the run asks for: tags, or the chunks of a diary where it was
    /// given the diary, or nothing where its kind of rows is any other.
    pub open spec fn selection(&self) -> Option<Selection> {
        if self.table_type()@ == "tags"@ {
            Some(Selection::Tags)
        } else if self.table_type()@ == "chunks"@ && self.filter_diary_name() is Some {
            Some(Selection::ChunksOfDiary)
        } else {
            None
        }
    }

    /// The name that goes with what the run asks for: the diary's for its
    /// chunks, and none for tags.
    pub open spec fn asked_name(&self) -> Option<Seq<char>> {
        match self.selection() {
            Some(Selection::ChunksOfDiary) => name_of(self.filter_diary_name()),
            _ => None,
        }
    }

    /// Whether all but the state and the figures of the run are as in
    /// `before`.
    pub open spec fn same_run(&self, before: &RecoverTask) -> bool {
        &&& self.db_path() == before.db_path()
        &&& self.table_type() == before.table_type()
        &&& self.filter_diary_name() == before.filter_diary_name()
    }

    /// Where the table is.
    #[verifier::when_used_as_spec(spec_db_path)]
    pub fn db_path(&self) -> (path: &String)
        ensures
            path == self.db_path(),
    {
        &self.db_path
    }

    /// Where the run stands.
    #[verifier::when_used_as_spec(spec_state)]
    pub fn state(&self) -> (state: &RecoveryState)
        ensures
            state == self.state(),
    {
        &self.state
    }

    /// The figures of the run so far.
    #[verifier::when_used_as_spec(spec_report)]
    pub fn report(&self) -> (report: RecoveryReport)
        ensures
            report == self.report(),
    {
        self.report
    }

    /// Begins the run and says what to ask of the table.
    ///
    /// An idle run that asks for something starts running. The chunks of a
    /// diary are asked for with the name of the diary; tags belong to no
    /// diary and are asked for without a name, whether or not the run was
    /// given one. An idle run that asks for nothing is completed at once
    /// with no vector. A run that is not idle stays as it is and asks
    /// nothing.
    pub fn start(&mut self) -> (query: Option<RecoveryQuery>)
        ensures
            final(self).same_run(old(self)),
            final(self).report() == old(self).report(),
            !(old(self).state() is Idle) ==> {
                &&& query is None
                &&& final(self).state() == old(self).state()
            },
            old(self).state() is Idle ==> match old(self).selection() {
                Some(selection) => {
                    &&& final(self).state() == RecoveryState::Running
                    &&& query is Some
                    &&& query->Some_0.selection == selection
                    &&& name_of(query->Some_0.diary_name) == old(self).asked_name()
                },
                None => {
                    &&& final(self).state() == (RecoveryState::Completed { count: 0 })
                    &&& query is None
                },
            },
    {
        match self.state {
            RecoveryState::Idle => {},
            _ => {
                return None;
            },
        }
        let tags = String::from_str("tags");
        let chunks = String::from_str("chunks");
        if self.table_type == tags {
            self.state = RecoveryState::Running;
            Some(RecoveryQuery { selection: Selection::Tags, diary_name: None })
        } else if self.table_type == chunks && self.filter_diary_name.is_some() {
            self.state = RecoveryState::Running;
            Some(
                RecoveryQuery {
                    selection: Selection::ChunksOfDiary,
                    diary_name: self.filter_diary_name.clone(),
                },
            )
        } else {
            self.state = RecoveryState::Completed { count: 0 };
            None
        }
    }

    /// What taking a row with `vector` under `id` makes of a running run
    /// with figures `counted` and of the store `before`. A vector that is
    /// not of the store's length leaves the store as it is and counts as
    /// skipped. Any other counts as inserted or as rejected, as the store
    /// took it or not: see `VexusIndex::inserted`.
    pub open spec fn row_taken(
        counted: RecoveryReport,
        before: VexusIndex,
        id: i64,
        vector: Seq<u8>,
        report: RecoveryReport,
        after: VexusIndex,
    ) -> bool {
        if !before.fits(vector) {
            after == before && report == counted.and_skipped()
        } else {
            ||| {
                &&& report == counted.and_inserted()
                &&& before.inserted(label_of(id), vector, after, Ok::<(), VexusError>(()))
            }
            ||| {
                &&& report == counted.and_rejected()
                &&& exists|error: VexusError|
                    #[trigger] before.inserted(
                        label_of(id),
                        vector,
                        after,
                        Err::<(), VexusError>(error),
                    )
            }
        }
    }

    /// Takes one row of the table.
    ///
    /// While the run is running, a row whose vector is not of the store's
    /// length is skipped and counted as such, with the store untouched. Any
    /// other goes into the store under the row's id, in place of what that
    /// label held and after the store has grown if it was tight, by the rule
    /// of a single insertion; it is counted as inserted, or as rejected if
    /// the engine refused it or its id is the label that the engine keeps
    /// for itself. A run that is not running takes nothing.
    pub fn take_row(&mut self, store: &mut VexusIndex, id: i64, vector: &[u8])
        requires
            old(store).wf(),
            old(self).report().rows() < usize::MAX,
        ensures
            final(store).wf(),
            final(store).dimensions() == old(store).dimensions(),
            final(store).capacity() >= old(store).capacity(),
            final(self).same_run(old(self)),
            final(self).state() == old(self).state(),
            !(old(self).state() is Running) ==> {
                &&& *final(store) == *old(store)
                &&& final(self).report() == old(self).report()
            },
            old(self).state() is Running ==> Self::row_taken(
                old(self).report(),
                *old(store),
                id,
                vector@,
                final(self).report(),
                *final(store),
            ),
            old(self).state() is Running && old(store).fits(vector@) ==> old(store).room_for_one(
                *final(store),
            ),
            final(store).count() <= final(store).capacity(),
    {
        proof {
            store.lemma_counts_within_room();
        }
        match self.state {
            RecoveryState::Running => {},
            _ => {
                return ;
            },
        }
        if !store.accepts(vector) {
            self.report.skipped = self.report.skipped + 1;
            return ;
        }
        match store.insert_or_update(#[verifier::truncate] (id as u64), vector) {
            Ok(_) => {
                self.report.inserted = self.report.inserted + 1;
            },
            Err(error) => {
                self.report.rejected = self.report.rejected + 1;
                let ghost refused = Err::<(), VexusError>(error);
                assert(old(store).inserted(label_of(id), vector@, *store, refused));
            },
        }
    }

    /// Ends the run because the table could not be read: a run that is idle
    /// or running has failed with `reason`; one that has ended stays as it
    /// ended.
    pub fn fail(&mut self, reason: String)
        ensures
            final(self).same_run(old(self)),
            final(self).report() == old(self).report(),
            final(self).state() == if old(self).state() is Idle || old(self).state() is Running {
                RecoveryState::Failed { reason }
            } else {
                *old(self).state()
            },
    {
        match self.state {
            RecoveryState::Idle | RecoveryState::Running => {
                self.state = RecoveryState::Failed { reason };
            },
            _ => {},
        }
    }

    /// Ends the run when the table has no more rows, and reports its
    /// figures: a running run is completed with the number of vectors it
    /// inserted; any other stays as it is.
    pub fn finish(&mut self) -> (report: RecoveryReport)
        ensures
            final(self).same_run(old(self)),
            final(self).report() == old(self).report(),
            report == old(self).report(),
            final(self).state() == if old(self).state() is Running {
                RecoveryState::Completed { count: report.inserted }
            } else {
                *old(self).state()
            },
    {
        match self.state {
            RecoveryState::Running => {
                self.state = RecoveryState::Completed { count: self.report.inserted };
            },
            _ => {},
        }
        self.report
    }

    /// What taking `rows` makes of a running run with figures `counted` and
    /// of a store that held `vectors` and counted `count` of them.
    ///
    /// The rows skipped are the misfits, whatever the engine does, and every
    /// other row is inserted or rejected. Where the engine refused none, the
    /// store holds what it held with every other row put in, in order, and
    /// counts one more for each label that was new when its turn came; that
    /// is one more for each row inserted where the rows bring labels that
    /// are new and differ from one another. It still counts one vector for
    /// each label if it did before, however often a label came.
    pub open spec fn rows_taken(
        counted: RecoveryReport,
        before: VexusIndex,
        rows: Seq<RecoveryRow>,
        report: RecoveryReport,
        after: VexusIndex,
    ) -> bool {
        let dimensions = before.dimensions();
        let all = rows.len();
        &&& report.skipped == counted.skipped + misfits(rows, dimensions, all)
        &&& report.inserted >= counted.inserted
        &&& report.rejected >= counted.rejected
        &&& report.rows() == counted.rows() + all
        &&& report.rejected == counted.rejected ==> {
            &&& after.vectors() == recovered(before.vectors(), rows, dimensions, all)
            &&& after.count() == before.count() + recovered_fresh(
                before.vectors(),
                rows,
                dimensions,
                all,
            )
            &&& brings_new_labels(before.vectors(), rows, dimensions, all) ==> after.count()
                == before.count() + report.inserted - counted.inserted
            &&& before.tallied() ==> after.tallied()
        }
    }

    /// Takes the rows that the table gave, in their order, and ends the run.
    ///
    /// Of a running run it reports how many rows it inserted, skipped and
    /// saw rejected: see `rows_taken`. A run that is not running takes
    /// nothing.
    pub fn compute(&mut self, store: &mut VexusIndex, rows: &[RecoveryRow]) -> (report:
        RecoveryReport)
        requires
            old(store).wf(),
            old(self).report().rows() + rows@.len() <= usize::MAX,
        ensures
            final(store).wf(),
            final(store).dimensions() == old(store).dimensions(),
            final(store).capacity() >= old(store).capacity(),
            final(store).count() <= final(store).capacity(),
            final(self).same_run(old(self)),
            final(self).report() == report,
            !(old(self).state() is Running) ==> {
                &&& *final(store) == *old(store)
                &&& report == old(self).report()
                &&& final(self).state() == old(self).state()
            },
            old(self).state() is Running ==> {
                &&& final(self).state() == (RecoveryState::Completed { count: report.inserted })
                &&& Self::rows_taken(old(self).report(), *old(store), rows@, report, *final(store))
            },
    {
        proof {
            store.lemma_counts_within_room();
        }
        match self.state {
            RecoveryState::Running => {},
            _ => {
                return self.report;
            },
        }
        let ghost dimensions = store.dimensions();
        let ghost before = store.vectors();
        let ghost held = store.count();
        let ghost counted = self.report();
        let mut i: usize = 0;
        while i < rows.len()
            invariant
                i <= rows@.len(),
                counted == old(self).report(),
                counted.rows() + rows@.len() <= usize::MAX,
                before == old(store).vectors(),
                held == old(store).count(),
                dimensions == old(store).dimensions(),
                store.wf(),
                store.dimensions() == dimensions,
                store.capacity() >= old(store).capacity(),
                store.count() <= store.capacity(),
                self.same_run(old(self)),
                self.state() is Running,
                self.report().skipped == counted.skipped + misfits(rows@, dimensions, i as nat),
                self.report().inserted >= counted.inserted,
                self.report().rejected >= counted.rejected,
                self.report().rows() == counted.rows() + i,
                self.report().rejected == counted.rejected ==> {
                    &&& store.vectors() == recovered(before, rows@, dimensions, i as nat)
                    &&& store.count() == held + recovered_fresh(
                        before,
                        rows@,
                        dimensions,
                        i as nat,
                    )
                    &&& old(store).tallied() ==> store.tallied()
                },
            decreases rows@.len() - i,
        {
            let ghost earlier = *store;
            let ghost figures = self.report();
            self.take_row(store, rows[i].id, rows[i].vector.as_slice());
            proof {
                let row = rows@[i as int];
                if self.report() == figures.and_inserted() && earlier.tallied() {
                    lemma_insert_keeps_tally(earlier, label_of(row.id), row.vector@, *store);
                }
            }
            i += 1;
        }
        proof {
            if brings_new_labels(before, rows@, dimensions, rows@.len()) {
                lemma_recovery_counts_every_row(before, rows@, dimensions, rows@.len());
            }
        }
        self.finish()
    }
}

} // verus!
