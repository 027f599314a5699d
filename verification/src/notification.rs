use vstd::prelude::*;
use crate::command::CommandId;

verus! {

/// A desktop notification: title, optional body, subtitle and identifier,
/// optional default action and action button, and a sound selection.
#[derive(Debug, PartialEq)]
pub struct Notification {
    pub title: String,
    pub body: Option<String>,
    pub subtitle: Option<String>,
    pub identifier: Option<String>,
    pub default_action: Option<CommandId>,
    pub action_button: Option<NotificationButton>,
    pub sound: NotificationSound,
}

/// The action button of a notification: a label and the command delivered
/// when the button is pressed.
#[derive(Debug, PartialEq)]
pub struct NotificationButton {
    pub label: String,
    pub command: CommandId,
}

/// Which sound accompanies a notification.
#[derive(Debug, PartialEq)]
pub enum NotificationSound {
    Default,
    Silent,
    Custom(String),
}

/// The mathematical value of a notification.
#[verifier::ext_equal]
pub struct NotificationV {
    pub title: Seq<char>,
    pub body: Option<Seq<char>>,
    pub subtitle: Option<Seq<char>>,
    pub identifier: Option<Seq<char>>,
    pub default_action: Option<CommandId>,
    pub action_button: Option<NotificationButtonV>,
    pub sound: NotificationSoundV,
}

/// The mathematical value of a notification button.
#[verifier::ext_equal]
pub struct NotificationButtonV {
    pub label: Seq<char>,
    pub command: CommandId,
}

/// The mathematical value of a sound selection.
#[verifier::ext_equal]
pub enum NotificationSoundV {
    Default,
    Silent,
    Custom(Seq<char>),
}

impl View for NotificationButton {
    type V = NotificationButtonV;

    open spec fn view(&self) -> NotificationButtonV {
        NotificationButtonV { label: self.label@, command: self.command }
    }
}

impl View for NotificationSound {
    type V = NotificationSoundV;

    open spec fn view(&self) -> NotificationSoundV {
        match *self {
            NotificationSound::Default => NotificationSoundV::Default,
            NotificationSound::Silent => NotificationSoundV::Silent,
            NotificationSound::Custom(ref name) => NotificationSoundV::Custom(name@),
        }
    }
}

/// The view of an optional string.
pub open spec fn opt_str_view(s: Option<String>) -> Option<Seq<char>> {
    match s {
        Some(t) => Some(t@),
        None => None,
    }
}

impl View for Notification {
    type V = NotificationV;

    open spec fn view(&self) -> NotificationV {
        NotificationV {
            title: self.title@,
            body: opt_str_view(self.body),
            subtitle: opt_str_view(self.subtitle),
            identifier: opt_str_view(self.identifier),
            default_action: self.default_action,
            action_button: match self.action_button {
                Some(ref b) => Some(b@),
                None => None,
            },
            sound: self.sound@,
        }
    }
}

impl Notification {
    /// A notification titled `title` with every optional part unset and the
    /// default sound.
    pub fn new(title: String) -> (r: Self)
        ensures
            r@ == (NotificationV {
                title: title@,
                body: None,
                subtitle: None,
                identifier: None,
                default_action: None,
                action_button: None,
                sound: NotificationSoundV::Default,
            }),
    {
        Notification {
            title,
            body: None,
            subtitle: None,
            identifier: None,
            default_action: None,
            action_button: None,
            sound: NotificationSound::Default,
        }
    }

    /// The same notification with its body set to `body`.
    pub fn with_body(self, body: String) -> (r: Self)
        ensures
            r@ == (NotificationV { body: Some(body@), ..self@ }),
    {
        Notification { body: Some(body), ..self }
    }

    /// The same notification with its subtitle set to `subtitle`.
    pub fn with_subtitle(self, subtitle: String) -> (r: Self)
        ensures
            r@ == (NotificationV { subtitle: Some(subtitle@), ..self@ }),
    {
        Notification { subtitle: Some(subtitle), ..self }
    }

    /// The same notification with its identifier set to `identifier`.
    pub fn with_identifier(self, identifier: String) -> (r: Self)
        ensures
            r@ == (NotificationV { identifier: Some(identifier@), ..self@ }),
    {
        Notification { identifier: Some(identifier), ..self }
    }

    /// The same notification with its default action set to `command`.
    pub fn with_default_action(self, command: CommandId) -> (r: Self)
        ensures
            r@ == (NotificationV { default_action: Some(command), ..self@ }),
    {
        Notification { default_action: Some(command), ..self }
    }

    /// The same notification with its action button set to `button`.
    pub fn with_action_button(self, button: NotificationButton) -> (r: Self)
        ensures
            r@ == (NotificationV { action_button: Some(button@), ..self@ }),
    {
        Notification { action_button: Some(button), ..self }
    }

    /// The same notification with its sound set to `sound`.
    pub fn with_sound(self, sound: NotificationSound) -> (r: Self)
        ensures
            r@ == (NotificationV { sound: sound@, ..self@ }),
    {
        Notification { sound, ..self }
    }
}

impl NotificationButton {
    /// A button labelled `label` delivering `command`.
    pub fn new(command: CommandId, label: String) -> (r: Self)
        ensures
            r@ == (NotificationButtonV { label: label@, command }),
    {
        NotificationButton { label, command }
    }
}

} // verus!
