//! What a desktop notification about a feed shows.
use vstd::prelude::*;
use vstd::string::*;

use crate::feed::{opt_chars, Feed};
use crate::text::{decimal, push_decimal, push_signed, signed_decimal};

verus! {

/// The kind of a notification.
#[derive(Debug, Clone, Copy, PartialEq, Eq, Structural)]
pub enum Icon {
    Update,
    Error,
}

impl Icon {
    /// The name of the icon in the desktop's icon theme.
    pub fn get_name(&self) -> (r: &'static str)
        ensures
            r@ == match self {
                Icon::Update => "emblem-sound"@,
                Icon::Error => "dialog-error"@,
            },
    {
        match self {
            Icon::Update => "emblem-sound",
            Icon::Error => "dialog-error",
        }
    }
}

/// The title of the notice about the `index`-th of `max_index` feeds.
pub open spec fn title_text(index: i32, max_index: i32, feed: Feed) -> Seq<char> {
    feed.state.abbrev@ + " - Broadcastify Update ("@ + signed_decimal(index as int) + " of "@
        + signed_decimal(max_index as int) + ")"@
}

/// The body of the notice about `feed`, whose listeners jumped by `jump`.
pub open spec fn body_text(feed: Feed, jump: i32) -> Seq<char> {
    "Name: "@ + feed.name@ + "\nListeners: "@ + decimal(feed.listeners as nat) + " (^"@
        + signed_decimal(jump as int) + ")"@ + match opt_chars(feed.alert) {
        Some(a) => "\nAlert: "@ + a,
        None => Seq::empty(),
    } + "\nLink: http://broadcastify.com/listen/feed/"@ + decimal(feed.id as nat)
}

/// The title of the notice about the `index`-th of `max_index` feeds.
pub fn update_title(index: i32, max_index: i32, feed: &Feed) -> (r: String)
    ensures
        r@ == title_text(index, max_index, *feed),
{
    let mut t = feed.state.abbrev.clone();
    t.append(" - Broadcastify Update (");
    push_signed(&mut t, index);
    t.append(" of ");
    push_signed(&mut t, max_index);
    t.append(")");
    t
}

/// The body of the notice about `feed`, whose listeners jumped by `jump`.
pub fn update_body(feed: &Feed, jump: i32) -> (r: String)
    ensures
        r@ == body_text(*feed, jump),
{
    let mut b = String::from_str("Name: ");
    b.append(feed.name.as_str());
    b.append("\nListeners: ");
    push_decimal(&mut b, feed.listeners);
    b.append(" (^");
    push_signed(&mut b, jump);
    b.append(")");
    if let Some(a) = &feed.alert {
        b.append("\nAlert: ");
        b.append(a.as_str());
    }
    b.append("\nLink: http://broadcastify.com/listen/feed/");
    push_decimal(&mut b, feed.id);
    assert(b@ =~= body_text(*feed, jump));
    b
}

} // verus!
