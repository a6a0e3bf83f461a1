//! Governance for an organisation and its projects: members propose actions,
//! peers vote under a quorum rule, and passed proposals change the state of the
//! organisation, of a project, or of a project's task schedule.
//!
//! Every function here works on plain values. Whoever embeds the library reads
//! the clock and the caller's identity, persists the state, and carries out the
//! effects that a passed proposal asks for.
//!
//! - [`voting`]: the voting record of a proposal and the rule that resolves it.
//! - [`proposal`]: the proposals of the organisation.
//! - [`project_proposal`]: the proposals of a project.
//! - [`graph`]: the dependencies between tasks, reduced to the minimal ones.
//! - [`deadline`]: how a changed end time moves the tasks that wait.
//! - [`project`]: a project with its members and tasks.
//! - [`org`]: the organisation with its members and projects.
//! - [`table`], [`task`], [`account`], [`error`]: what the others are made of.

pub mod account;
pub mod deadline;
pub mod error;
pub mod graph;
pub mod org;
pub mod project;
pub mod project_proposal;
pub mod proposal;
pub mod table;
pub mod task;
pub mod voting;
