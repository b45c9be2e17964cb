//! The chat view: what it shows, and when it has to be drawn again.

use crate::event_cell::Subscription;
use crate::model::Model;
use crate::model::ModelState;
use crate::window::can_place;
use crate::window::placed;
use crate::window::Bounds;
use crate::window::WindowKind;
use crate::window::WindowOptions;
use vstd::prelude::*;

verus! {

/// What a view is, mathematically.
pub ghost struct ChatState {
    /// The text of the latest message that the view was notified of.
    pub text: Option<Seq<char>>,
    /// The identifier of the view's registration with its model.
    pub subscription: Option<u64>,
    /// Whether a redraw is pending.
    pub dirty: bool,
}

impl ChatState {
    /// The view after it was notified of `text`: it holds the text, and a
    /// redraw is pending.
    pub open spec fn notified(self, text: Seq<char>) -> ChatState {
        ChatState { text: Some(text), dirty: true, ..self }
    }

    /// Whether the view's registration is among `subscribers`.
    pub open spec fn listens(self, subscribers: Seq<u64>) -> bool {
        self.subscription matches Some(id) && subscribers.contains(id)
    }

    /// The view after `text` was published to `subscribers`.
    pub open spec fn delivered(self, subscribers: Seq<u64>, text: Seq<char>) -> ChatState {
        if self.listens(subscribers) {
            self.notified(text)
        } else {
            self
        }
    }

    /// The text that the view shows: empty until the first message.
    pub open spec fn shown(self) -> Seq<char> {
        match self.text {
            Some(t) => t,
            None => Seq::empty(),
        }
    }

    /// What the view draws.
    pub open spec fn rendered(self) -> Seq<char> {
        "Message, "@ + self.shown() + "!"@
    }

    /// What the next render step draws: the view, if a redraw is pending.
    pub open spec fn frame(self) -> Option<Seq<char>> {
        if self.dirty {
            Some(self.rendered())
        } else {
            None
        }
    }

    /// The view after a redraw was asked for `times` times.
    pub open spec fn requested(self, times: nat) -> ChatState
        decreases times,
    {
        if times == 0 {
            self
        } else {
            ChatState { dirty: true, ..self.requested((times - 1) as nat) }
        }
    }

    /// The view after a render step.
    pub open spec fn drawn(self) -> ChatState {
        ChatState { dirty: false, ..self }
    }
}

/// The view of the chat. It owns its registration with the model for as
/// long as it lives.
pub struct Chat {
    text: Option<String>,
    subscription: Option<Subscription>,
    dirty: bool,
}

impl View for Chat {
    type V = ChatState;

    closed spec fn view(&self) -> ChatState {
        ChatState {
            text: match self.text {
                Some(t) => Some(t@),
                None => None,
            },
            subscription: match self.subscription {
                Some(s) => Some(s@),
                None => None,
            },
            dirty: self.dirty,
        }
    }
}

impl Chat {
    /// A model that has seen no message and has no view.
    pub fn build_model() -> (model: Model)
        ensures
            model@.text.is_none(),
            model@.registry.subscribers.len() == 0,
            model@.registry.issued == 0,
            model.wf(),
    {
        Model::new()
    }

    /// A view of `model`. It subscribes at once, behind the views that the
    /// model already has. It shows no text yet and has never been drawn, so
    /// its first redraw is pending.
    pub fn build_view(model: &mut Model) -> (view: Chat)
        requires
            old(model).wf(),
            old(model)@.registry.issued < u64::MAX,
        ensures
            view@ == (ChatState {
                text: None,
                subscription: Some(old(model)@.registry.issued as u64),
                dirty: true,
            }),
            final(model)@ == (ModelState { registry: old(model)@.registry.subscribed(), ..old(model)@ }),
            final(model).wf(),
    {
        let subscription = model.subscribe();
        Chat { text: None, subscription: Some(subscription), dirty: true }
    }

    /// What the chat asks of its window on a display with the bounds
    /// `bounds`: a movable pop-up without title bar, centred on the display,
    /// that takes the focus.
    pub fn options(bounds: Bounds) -> (options: WindowOptions)
        requires
            can_place(bounds),
        ensures
            options == (WindowOptions {
                bounds: placed(bounds),
                focus: true,
                titlebar: false,
                is_movable: true,
                kind: WindowKind::PopUp,
            }),
    {
        WindowOptions {
            bounds: bounds.place(),
            focus: true,
            titlebar: false,
            is_movable: true,
            kind: WindowKind::PopUp,
        }
    }

    /// Whether the view is registered under the identifier `id`.
    pub fn subscribed_as(&self, id: u64) -> (listed: bool)
        ensures
            listed == (self@.subscription == Some(id)),
    {
        match &self.subscription {
            Some(s) => s.id() == id,
            None => false,
        }
    }

    /// The callback of the view's subscription: takes a copy of the
    /// published text and asks for a redraw.
    pub fn notify(&mut self, text: &String)
        ensures
            final(self)@ == old(self)@.notified(text@),
    {
        self.text = Some(text.clone());
        self.dirty = true;
    }

    /// Asks for a redraw. Asking again before the next render step changes
    /// nothing.
    pub fn request_redraw(&mut self)
        ensures
            final(self)@ == (ChatState { dirty: true, ..old(self)@ }),
    {
        self.dirty = true;
    }

    /// Whether a redraw is pending.
    pub fn needs_redraw(&self) -> (pending: bool)
        ensures
            pending == self@.dirty,
    {
        self.dirty
    }

    /// What the view draws: the text of the latest message between
    /// "Message, " and "!", with nothing between them before the first
    /// message. Drawing changes nothing.
    pub fn render(&self) -> (tree: String)
        ensures
            tree@ == self@.rendered(),
    {
        let mut tree = String::from_str("Message, ");
        match &self.text {
            Some(t) => {
                tree.append(t.as_str());
            },
            None => {
                assert(tree@ + Seq::<char>::empty() == tree@);
            },
        }
        tree.append("!");
        tree
    }

    /// One render step: draws the view if a redraw is pending, however
    /// often it was asked for, and nothing otherwise.
    pub fn redraw(&mut self) -> (frame: Option<String>)
        ensures
            final(self)@ == old(self)@.drawn(),
            match frame {
                Some(tree) => old(self)@.frame() == Some(tree@),
                None => old(self)@.frame().is_none(),
            },
    {
        if self.dirty {
            self.dirty = false;
            Some(self.render())
        } else {
            None
        }
    }

    /// Destroys the view: its registration with `model` ends with it, so
    /// that nothing published later is delivered to it. Returns whether the
    /// registration was still listed.
    pub fn close(self, model: &mut Model) -> (was_listed: bool)
        requires
            old(model).wf(),
        ensures
            was_listed == self@.listens(old(model)@.registry.subscribers),
            final(model)@ == (ModelState {
                registry: match self@.subscription {
                    Some(id) => old(model)@.registry.unsubscribed(id),
                    None => old(model)@.registry,
                },
                ..old(model)@
            }),
            self@.subscription matches Some(id) ==> !final(model)@.registry.subscribers.contains(id),
            final(model).wf(),
    {
        match self.subscription {
            Some(subscription) => model.unsubscribe(subscription),
            None => false,
        }
    }
}

/// However often a redraw is asked for before a render
/// step, the step draws the view once, and the step after it draws nothing.
pub proof fn law_redraw_requests_coalesce(view: ChatState, times: nat)
    requires
        times >= 1,
    ensures
        view.requested(times) == view.requested(1),
        view.requested(times).frame() == Some(view.rendered()),
        view.requested(times).drawn().frame().is_none(),
    decreases times,
{
    reveal_with_fuel(ChatState::requested, 2);
    if times > 1 {
        law_redraw_requests_coalesce(view, (times - 1) as nat);
    }
}

/// Notifications coalesce in the same way: after any number of them the
/// render step draws the view once, with the text of the last.
pub proof fn law_notifications_coalesce(view: ChatState, earlier: Seq<char>, last: Seq<char>)
    ensures
        view.notified(earlier).notified(last) == view.notified(last),
        view.notified(last).frame() == Some("Message, "@ + last + "!"@),
        view.notified(last).drawn().frame().is_none(),
{
}

} // verus!
