//! Data model: the status state machine, the persisted report entity and
//! its two view projections.

use vstd::prelude::*;

use crate::text::spec_decimal;
use crate::text::u64_to_decimal;

verus! {

/// Lifecycle states of a report, in lifecycle order.
///
/// Transitions are unrestricted data assignments: moderators may move a
/// report from any status to any other, including reverting a decision.
#[derive(Clone, Copy, Debug, PartialEq, Eq, PartialOrd, Ord, Structural)]
pub enum ReportStatus {
    Unhandled,
    Reviewing,
    Accepted,
    Denied,
}

/// A stored numeric status code that matches no known status: data
/// corruption, surfaced as a recoverable decode error.
#[derive(Clone, Copy, Debug, PartialEq, Eq, Structural)]
pub struct CorruptStatusCode {
    pub code: i64,
}

impl ReportStatus {
    /// Numeric code under which this status is persisted.
    pub open spec fn spec_code(self) -> int {
        match self {
            ReportStatus::Unhandled => 0,
            ReportStatus::Reviewing => 1,
            ReportStatus::Accepted => 2,
            ReportStatus::Denied => 3,
        }
    }

    pub fn to_code(self) -> (code: i64)
        ensures
            code == self.spec_code(),
    {
        match self {
            ReportStatus::Unhandled => 0,
            ReportStatus::Reviewing => 1,
            ReportStatus::Accepted => 2,
            ReportStatus::Denied => 3,
        }
    }

    /// The status a stored code stands for, if any.
    pub open spec fn spec_from_code(code: int) -> Option<ReportStatus> {
        if code == 0 {
            Some(ReportStatus::Unhandled)
        } else if code == 1 {
            Some(ReportStatus::Reviewing)
        } else if code == 2 {
            Some(ReportStatus::Accepted)
        } else if code == 3 {
            Some(ReportStatus::Denied)
        } else {
            None
        }
    }

    pub fn from_code(code: i64) -> (r: Result<ReportStatus, CorruptStatusCode>)
        ensures
            match r {
                Ok(s) => Self::spec_from_code(code as int) == Some(s),
                Err(e) => Self::spec_from_code(code as int) is None && e.code == code,
            },
    {
        match code {
            0 => Ok(ReportStatus::Unhandled),
            1 => Ok(ReportStatus::Reviewing),
            2 => Ok(ReportStatus::Accepted),
            3 => Ok(ReportStatus::Denied),
            _ => Err(CorruptStatusCode { code }),
        }
    }

    /// Human-readable label shown in both rendered views.
    pub open spec fn spec_label(self) -> Seq<char> {
        match self {
            ReportStatus::Unhandled => "😴 Unhandled"@,
            ReportStatus::Reviewing => "🔎 Reviewing"@,
            ReportStatus::Accepted => "✅ Accepted"@,
            ReportStatus::Denied => "❌ Denied"@,
        }
    }

    pub fn to_human_status(&self) -> (label: &'static str)
        ensures
            label@ == self.spec_label(),
    {
        match *self {
            ReportStatus::Unhandled => "😴 Unhandled",
            ReportStatus::Reviewing => "🔎 Reviewing",
            ReportStatus::Accepted => "✅ Accepted",
            ReportStatus::Denied => "❌ Denied",
        }
    }

    /// Display color of this status, if it has one; `Unhandled` has none.
    pub open spec fn spec_color(self) -> Option<u32> {
        match self {
            ReportStatus::Unhandled => None,
            ReportStatus::Reviewing => Some(0xADD8E6u32),
            ReportStatus::Accepted => Some(0x00FF00u32),
            ReportStatus::Denied => Some(0xFF0000u32),
        }
    }

    pub fn to_color(&self) -> (color: Option<u32>)
        ensures
            color == self.spec_color(),
    {
        match *self {
            ReportStatus::Unhandled => None,
            ReportStatus::Reviewing => Some(0xADD8E6),
            ReportStatus::Accepted => Some(0x00FF00),
            ReportStatus::Denied => Some(0xFF0000),
        }
    }
}

/// A persisted report.
///
/// `channel_id` and `message_id` are both present or both absent: a report
/// either references a specific message or references none.  Identifiers
/// are the platform's numeric ids.
#[derive(Clone, Debug)]
pub struct ReportModel {
    pub id: u64,
    pub accuser_user_id: u64,
    pub reported_user_id: u64,
    pub guild_id: u64,
    pub status: ReportStatus,
    pub channel_id: Option<u64>,
    pub message_id: Option<u64>,
    pub reason: Option<String>,
}

/// Mathematical value of a [`ReportModel`]: the free-text reason becomes a
/// sequence of characters.
#[verifier::ext_equal]
pub struct ReportView {
    pub id: u64,
    pub accuser_user_id: u64,
    pub reported_user_id: u64,
    pub guild_id: u64,
    pub status: ReportStatus,
    pub channel_id: Option<u64>,
    pub message_id: Option<u64>,
    pub reason: Option<Seq<char>>,
}

impl View for ReportModel {
    type V = ReportView;

    open spec fn view(&self) -> ReportView {
        ReportView {
            id: self.id,
            accuser_user_id: self.accuser_user_id,
            reported_user_id: self.reported_user_id,
            guild_id: self.guild_id,
            status: self.status,
            channel_id: self.channel_id,
            message_id: self.message_id,
            reason: match self.reason {
                Some(s) => Some(s@),
                None => None,
            },
        }
    }
}

impl ReportModel {
    /// The permalink of the referenced message:
    /// `https://discord.com/channels/<guild>/<channel>/<message>`.
    pub open spec fn spec_url(guild_id: u64, channel_id: u64, message_id: u64) -> Seq<char> {
        "https://discord.com/channels/"@ + spec_decimal(guild_id as nat) + "/"@ + spec_decimal(
            channel_id as nat,
        ) + "/"@ + spec_decimal(message_id as nat)
    }

    /// Permalink of the referenced message, present exactly when both the
    /// channel and the message id are recorded — never a partial URL.
    pub fn url(&self) -> (r: Option<String>)
        ensures
            match r {
                Some(u) => self@.channel_id matches Some(c) && self@.message_id matches Some(m)
                    && u@ == Self::spec_url(self.guild_id, c, m),
                None => self@.channel_id is None || self@.message_id is None,
            },
    {
        match (self.channel_id, self.message_id) {
            (Some(c), Some(m)) => {
                let mut u = "https://discord.com/channels/".to_owned();
                u.append(u64_to_decimal(self.guild_id).as_str());
                u.append("/");
                u.append(u64_to_decimal(c).as_str());
                u.append("/");
                u.append(u64_to_decimal(m).as_str());
                Some(u)
            },
            _ => None,
        }
    }
}

/// Reporter-facing projection of a report: the message it is rendered
/// into, and the status that rendering currently shows.
#[derive(Clone, Copy, Debug, PartialEq, Eq, Structural)]
pub struct UserViewModel {
    pub report_id: u64,
    pub message_id: u64,
    pub status: ReportStatus,
}

/// Moderator-facing projection of a report: the moderation-channel
/// message it is rendered into, a reference to an archived copy of the
/// reported content (if any), and the moderator currently handling it.
#[derive(Clone, Copy, Debug, PartialEq, Eq, Structural)]
pub struct ModViewModel {
    pub report_id: u64,
    pub channel_id: u64,
    pub message_id: u64,
    pub preview_archive_id: u64,
    pub handler: Option<u64>,
}

/// Either rendered projection of a report.
#[derive(Clone, Copy, Debug, PartialEq, Eq, Structural)]
pub enum ViewModel {
    User(UserViewModel),
    Mod(ModViewModel),
}

/// Outcome of the dedup-aware write: the single channel through which the
/// lifecycle engine tells view synchronization what happened.
#[derive(Clone, Debug)]
pub enum MakeReportEffect {
    /// A new report row was created.
    Created(ReportModel),
    /// An equal report already existed; its id is returned, no row added.
    Duplicate(u64),
    /// An existing report row was changed in place.
    Updated(u64),
}

} // verus!
