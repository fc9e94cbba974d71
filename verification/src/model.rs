//! Data shared by the whole library: users, services, overlay pages and
//! presentations, together with their mathematical views.

use vstd::prelude::*;

verus! {

/// Mathematical view of a [`User`]: every text field as a sequence of
/// characters.
#[verifier::ext_equal]
pub struct UserView {
    pub icon: Option<Seq<char>>,
    pub ident: Option<Seq<char>>,
    pub name: Seq<char>,
}

/// A chat-platform user as the overlay shows it: an optional avatar URL,
/// an optional platform handle, and a display name.
#[derive(Debug, PartialEq, Eq)]
pub struct User {
    pub icon: Option<String>,
    pub ident: Option<String>,
    pub name: String,
}

impl View for User {
    type V = UserView;

    open spec fn view(&self) -> UserView {
        UserView {
            icon: match self.icon {
                Some(s) => Some(s@),
                None => None,
            },
            ident: match self.ident {
                Some(s) => Some(s@),
                None => None,
            },
            name: self.name@,
        }
    }
}

impl DeepView for User {
    type V = UserView;

    open spec fn deep_view(&self) -> UserView {
        self.view()
    }
}

/// The chat service a timeline entry came from.
#[derive(Clone, Copy, Debug, PartialEq, Eq, Structural)]
pub enum Service {
    Discord,
    Twitter,
    Youtube,
}

/// The overlay page currently shown: the talk screen or the waiting screen.
#[derive(Clone, Copy, Debug, PartialEq, Eq, Structural)]
pub enum Page {
    LTScreen,
    WaitingScreen,
}

/// Mathematical view of a [`Presentation`].
#[verifier::ext_equal]
pub struct PresentationView {
    pub presenter: UserView,
    pub title: Seq<char>,
}

/// One upcoming talk: who presents it and under which title.
#[derive(Debug, PartialEq, Eq)]
pub struct Presentation {
    pub presenter: User,
    pub title: String,
}

impl View for Presentation {
    type V = PresentationView;

    open spec fn view(&self) -> PresentationView {
        PresentationView { presenter: self.presenter@, title: self.title@ }
    }
}

impl DeepView for Presentation {
    type V = PresentationView;

    open spec fn deep_view(&self) -> PresentationView {
        self.view()
    }
}

impl Clone for User {
    /// A copy that shows the same icon, handle and name.
    fn clone(&self) -> (r: Self)
        ensures
            r@ == self@,
    {
        User {
            icon: match &self.icon {
                Some(s) => Some(s.clone()),
                None => None,
            },
            ident: match &self.ident {
                Some(s) => Some(s.clone()),
                None => None,
            },
            name: self.name.clone(),
        }
    }
}

impl Clone for Presentation {
    /// A copy with the same presenter and title.
    fn clone(&self) -> (r: Self)
        ensures
            r@ == self@,
    {
        Presentation { presenter: self.presenter.clone(), title: self.title.clone() }
    }
}

/// Stream and invitation URLs used to build announcement footers; loaded
/// once at startup.
#[derive(Debug)]
pub struct SnsInfo {
    pub youtube_stream_url: String,
    pub discord_invitation_url: String,
}

} // verus!
