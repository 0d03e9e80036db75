//! Short descriptions of users.
use vstd::prelude::*;

verus! {

#[derive(Debug, Clone, PartialEq, Eq)]
pub enum AvatarState {
    /// No avatar was set; the API writes it `none`.
    NoAvatar,
    Submitted,
    Approved,
    Locked,
    Reported,
    ReReported,
}

/// This mini-object is used for secondary user responses, when we just want to
/// provide enough information to display a user.
#[derive(Debug, Clone, PartialEq, Eq)]
pub struct UserDisplay {
    /// The ID of the user.
    pub id: u32,
    /// A short name the user has selected, for use in conversations or other less
    /// formal places through the site.
    pub short_name: String,
    /// If avatars are enabled, this field will be included and contain a url to
    /// retrieve the user's avatar.
    pub avatar_image_url: String,
    /// URL to access user, either nested to a context or directly.
    pub html_url: String,
}

/// This mini-object is returned in place of UserDisplay when returning student
/// data for anonymous assignments, and includes an anonymous ID to identify a
/// user within the scope of a single assignment.
#[derive(Debug, Clone, PartialEq, Eq)]
pub struct AnonymousUserDisplay {
    /// A unique short ID identifying this user within the scope of a particular
    /// assignment.
    pub anonymous_id: String,
    /// A URL to retrieve a generic avatar.
    pub avatar_image_url: String,
    /// The anonymized display name for the student.
    pub display_name: String,
}

} // verus!
