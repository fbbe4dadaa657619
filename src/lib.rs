//! Renders a stream of Markdown document events as Slack's mrkdwn text.
use vstd::prelude::*;

pub mod event;
pub mod lemmas;
pub mod markdown;
pub mod slackdown;
pub mod text;

verus! {

} // verus!
