//! Tracking progress through the topics of a course.
use vstd::prelude::*;

verus! {

/// The number of topics.
pub const TOPIC_COUNT: usize = 27;

/// A topic of the course.
#[derive(Debug, Clone, Copy, PartialEq, Eq, Hash, Structural)]
pub enum Topic {
    Variables,
    Functions,
    ControlFlow,
    DataTypes,
    Ownership,
    References,
    Slices,
    Structs,
    Enums,
    PatternMatching,
    ErrorHandling,
    ResultOption,
    Generics,
    Traits,
    Lifetimes,
    Collections,
    Vectors,
    Strings,
    HashMaps,
    Closures,
    Iterators,
    Threads,
    Channels,
    SharedState,
    Calculator,
    TodoApp,
    FileSearch,
}

/// How far a topic has got.
#[derive(Debug, Clone, Copy, PartialEq, Eq, Structural)]
pub enum Status {
    NotStarted,
    InProgress,
    Completed,
    NeedsReview,
}

/// The place of a topic in the course, from 0.
pub open spec fn topic_index(t: Topic) -> nat {
    match t {
        Topic::Variables => 0,
        Topic::Functions => 1,
        Topic::ControlFlow => 2,
        Topic::DataTypes => 3,
        Topic::Ownership => 4,
        Topic::References => 5,
        Topic::Slices => 6,
        Topic::Structs => 7,
        Topic::Enums => 8,
        Topic::PatternMatching => 9,
        Topic::ErrorHandling => 10,
        Topic::ResultOption => 11,
        Topic::Generics => 12,
        Topic::Traits => 13,
        Topic::Lifetimes => 14,
        Topic::Collections => 15,
        Topic::Vectors => 16,
        Topic::Strings => 17,
        Topic::HashMaps => 18,
        Topic::Closures => 19,
        Topic::Iterators => 20,
        Topic::Threads => 21,
        Topic::Channels => 22,
        Topic::SharedState => 23,
        Topic::Calculator => 24,
        Topic::TodoApp => 25,
        Topic::FileSearch => 26,
    }
}

/// The number of `Completed` entries.
pub open spec fn completed_in(s: Seq<Status>) -> nat
    decreases s.len(),
{
    if s.len() == 0 {
        0
    } else {
        completed_in(s.drop_last()) + if s.last() == Status::Completed {
            1nat
        } else {
            0nat
        }
    }
}

impl Topic {
    /// The place of the topic in the course, from 0.
    pub fn index(&self) -> (r: usize)
        ensures
            r == topic_index(*self),
            r < TOPIC_COUNT,
    {
        match self {
            Topic::Variables => 0,
            Topic::Functions => 1,
            Topic::ControlFlow => 2,
            Topic::DataTypes => 3,
            Topic::Ownership => 4,
            Topic::References => 5,
            Topic::Slices => 6,
            Topic::Structs => 7,
            Topic::Enums => 8,
            Topic::PatternMatching => 9,
            Topic::ErrorHandling => 10,
            Topic::ResultOption => 11,
            Topic::Generics => 12,
            Topic::Traits => 13,
            Topic::Lifetimes => 14,
            Topic::Collections => 15,
            Topic::Vectors => 16,
            Topic::Strings => 17,
            Topic::HashMaps => 18,
            Topic::Closures => 19,
            Topic::Iterators => 20,
            Topic::Threads => 21,
            Topic::Channels => 22,
            Topic::SharedState => 23,
            Topic::Calculator => 24,
            Topic::TodoApp => 25,
            Topic::FileSearch => 26,
        }
    }
}

/// The status of every topic of the course.
#[derive(Debug)]
pub struct ProgressTracker {
    statuses: Vec<Status>,
}

impl ProgressTracker {
    /// The status of each topic, by place in the course.
    pub closed spec fn statuses(&self) -> Seq<Status> {
        self.statuses@
    }

    /// The status of topic `t`.
    pub open spec fn status_of(&self, t: Topic) -> Status {
        self.statuses()[topic_index(t) as int]
    }

    /// Every topic has a status.
    pub closed spec fn wf(&self) -> bool {
        self.statuses@.len() == TOPIC_COUNT
    }

    /// A tracker where no topic has been started.
    pub fn new() -> (r: ProgressTracker)
        ensures
            r.wf(),
            r.statuses().len() == TOPIC_COUNT,
            forall|i: int| 0 <= i < TOPIC_COUNT ==> r.statuses()[i] == Status::NotStarted,
    {
        let mut statuses: Vec<Status> = Vec::new();
        let mut i: usize = 0;
        while i < TOPIC_COUNT
            invariant
                i <= TOPIC_COUNT,
                statuses@.len() == i,
                forall|j: int| 0 <= j < i ==> statuses@[j] == Status::NotStarted,
            decreases TOPIC_COUNT - i,
        {
            statuses.push(Status::NotStarted);
            i += 1;
        }
        ProgressTracker { statuses }
    }

    /// Sets the status of `topic`; the others keep theirs.
    pub fn update_status(&mut self, topic: Topic, status: Status)
        requires
            old(self).wf(),
        ensures
            final(self).wf(),
            final(self).statuses() == old(self).statuses().update(topic_index(topic) as int, status),
    {
        let i = topic.index();
        self.statuses[i] = status;
    }

    /// The status of `topic`; every topic has one.
    pub fn get_status(&self, topic: &Topic) -> (r: Option<&Status>)
        requires
            self.wf(),
        ensures
            r matches Some(s) && *s == self.status_of(*topic),
    {
        let i = topic.index();
        Some(&self.statuses[i])
    }

    /// The number of completed topics.
    pub fn completed_count(&self) -> (r: usize)
        requires
            self.wf(),
        ensures
            r == completed_in(self.statuses()),
    {
        let mut count: usize = 0;
        let mut i: usize = 0;
        while i < self.statuses.len()
            invariant
                i <= self.statuses@.len(),
                count == completed_in(self.statuses@.subrange(0, i as int)),
                count <= i,
            decreases self.statuses@.len() - i,
        {
            assert(self.statuses@.subrange(0, i + 1).drop_last() =~= self.statuses@.subrange(
                0,
                i as int,
            ));
            if self.statuses[i] == Status::Completed {
                count += 1;
            }
            i += 1;
        }
        assert(self.statuses@.subrange(0, self.statuses@.len() as int) =~= self.statuses@);
        count
    }

    /// The number of topics.
    pub fn total_count(&self) -> (r: usize)
        requires
            self.wf(),
        ensures
            r == TOPIC_COUNT,
    {
        self.statuses.len()
    }
}

impl Default for ProgressTracker {
    fn default() -> (r: ProgressTracker)
        ensures
            r.wf(),
            forall|i: int| 0 <= i < TOPIC_COUNT ==> r.statuses()[i] == Status::NotStarted,
    {
        ProgressTracker::new()
    }
}

} // verus!
