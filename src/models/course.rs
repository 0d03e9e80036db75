//! Course settings that the API reports as plain values.
use vstd::prelude::*;

verus! {

#[derive(Debug, Clone, PartialEq, Eq)]
pub enum PageType {
    Feed,
    Wiki,
    Modules,
    Assignments,
    Syllabus,
}

#[derive(Debug, Clone, PartialEq, Eq)]
pub enum GradePassbackSetting {
    NightlySync,
    Disabled,
    Empty,
}

#[derive(Debug, Clone, PartialEq, Eq)]
pub enum CourseFormat {
    OnCampus,
    Online,
    Blended,
}

#[derive(Debug, Clone, PartialEq, Eq)]
pub enum WorkflowState {
    Unpublished,
    Available,
    Completed,
    Deleted,
}

#[derive(Debug, Clone, PartialEq, Eq)]
pub struct CalendarLink {
    pub ics: String,
}

} // verus!
