//! The windows of the pins.
//!
//! This is the part of the program that knows which window shows which pin. It
//! takes messages one at a time and answers each with the commands that the
//! windowing system is to carry out, in order.

use crate::image_ops;
use crate::ipc::PinActionKind;
use crate::order;
use crate::pin_id::PinId;
use crate::pixels::{Picture, RgbaImage};
use crate::registry;
use crate::registry::{PinRegistry, Registry};
use crate::text;
use std::collections::HashMap;
use std::sync::Arc;
use vstd::prelude::*;

verus! {

/// An action on a pin. The keyboard and the clients share one set of actions.
pub type PinAction = PinActionKind;

/// What a connection tells the windows.
#[derive(Debug, Clone, Copy, PartialEq, Eq, Structural)]
pub enum AppEvent {
    /// A pin was made: open a window for it.
    OpenPin(PinId),
    /// A pin was closed: close its window.
    ClosePin(PinId),
    /// All pins were closed.
    CloseAllPins,
    /// A client asked for an action on a pin.
    PinAction {
        /// The pin to act on.
        pin_id: PinId,
        /// What to do to it.
        action: PinAction,
    },
}

/// Something that happened.
#[derive(Debug)]
pub enum Message {
    /// A connection has something to tell.
    Event(AppEvent),
    /// A window was opened for a pin.
    WindowOpened {
        /// The new window.
        window: u64,
        /// What it is for.
        pin_id: PinId,
    },
    /// A window is gone.
    WindowClosed(u64),
    /// A shortcut was pressed in a window.
    Action {
        /// The window that has the focus.
        window: u64,
        /// What the shortcut stands for.
        action: PinAction,
    },
    /// The thumbnail of a transformed pin has been taken care of.
    TransformReady {
        /// The pin that was transformed.
        pin_id: PinId,
        /// Its new pixels.
        image: Arc<RgbaImage>,
        /// Whether width and height changed places.
        swap_logical: bool,
        /// Whether the new thumbnail is in place.
        thumbnail_written: bool,
    },
    /// A copy or a save came to its end.
    AsyncDone,
}

/// What a [`Message`] says.
pub enum MessageView {
    Event(AppEvent),
    WindowOpened { window: u64, pin: u64 },
    WindowClosed(u64),
    Action { window: u64, action: PinAction },
    TransformReady { pin: u64, picture: Picture, swap_logical: bool, thumbnail_written: bool },
    AsyncDone,
}

impl View for Message {
    type V = MessageView;

    open spec fn view(&self) -> MessageView {
        match self {
            Message::Event(e) => MessageView::Event(*e),
            Message::WindowOpened { window, pin_id } => MessageView::WindowOpened {
                window: *window,
                pin: pin_id@,
            },
            Message::WindowClosed(window) => MessageView::WindowClosed(*window),
            Message::Action { window, action } => MessageView::Action {
                window: *window,
                action: *action,
            },
            Message::TransformReady { pin_id, image, swap_logical, thumbnail_written } =>
            MessageView::TransformReady {
                pin: pin_id@,
                picture: image@,
                swap_logical: *swap_logical,
                thumbnail_written: *thumbnail_written,
            },
            Message::AsyncDone => MessageView::AsyncDone,
        }
    }
}

/// Something that the windowing system is to do.
#[derive(Debug)]
pub enum Command {
    /// Open a window of this size, and report it with
    /// [`Message::WindowOpened`].
    OpenWindow {
        /// What the window is for.
        pin_id: PinId,
        /// Width, in the units of the compositor.
        width: u32,
        /// Height, in the units of the compositor.
        height: u32,
    },
    /// The window of this pin is up, or none will come. Whoever waits for it can
    /// be answered.
    Settled {
        /// The pin.
        pin_id: PinId,
    },
    /// Keep the proportions of this window from now on.
    WatchWindow {
        /// The window.
        window: u64,
        /// Its width.
        width: u32,
        /// Its height.
        height: u32,
    },
    /// Stop keeping the proportions of this window.
    ForgetWindow {
        /// The window.
        window: u64,
    },
    /// Stop keeping the proportions of any window.
    ForgetAllWindows,
    /// Close this window.
    CloseWindow {
        /// The window.
        window: u64,
    },
    /// Let width and height of this window change places.
    TurnWindow {
        /// The window.
        window: u64,
    },
    /// From now on, draw these pixels for the pin.
    ShowImage {
        /// The pin.
        pin_id: PinId,
        /// Its pixels.
        image: Arc<RgbaImage>,
    },
    /// The pixels of the pin are no longer drawn.
    DropImage {
        /// The pin.
        pin_id: PinId,
    },
    /// No pixels are drawn any more.
    DropAllImages,
    /// Put the pixels on the clipboard.
    Copy {
        /// The pin.
        pin_id: PinId,
        /// Its pixels.
        image: Arc<RgbaImage>,
    },
    /// Write the pixels to the save directory.
    Save {
        /// The pin.
        pin_id: PinId,
        /// Its pixels.
        image: Arc<RgbaImage>,
    },
    /// Write the thumbnail of these pixels, if there are thumbnails, and report
    /// it with [`Message::TransformReady`].
    Transform {
        /// The pin.
        pin_id: PinId,
        /// Its new pixels.
        image: Arc<RgbaImage>,
        /// Whether width and height changed places.
        swap_logical: bool,
    },
}

/// What a [`Command`] asks for.
pub enum CommandView {
    OpenWindow { pin: u64, width: u32, height: u32 },
    Settled { pin: u64 },
    WatchWindow { window: u64, width: u32, height: u32 },
    ForgetWindow { window: u64 },
    ForgetAllWindows,
    CloseWindow { window: u64 },
    TurnWindow { window: u64 },
    ShowImage { pin: u64, picture: Picture },
    DropImage { pin: u64 },
    DropAllImages,
    Copy { pin: u64, picture: Picture },
    Save { pin: u64, picture: Picture },
    Transform { pin: u64, picture: Picture, swap_logical: bool },
}

impl View for Command {
    type V = CommandView;

    open spec fn view(&self) -> CommandView {
        match self {
            Command::OpenWindow { pin_id, width, height } => CommandView::OpenWindow {
                pin: pin_id@,
                width: *width,
                height: *height,
            },
            Command::Settled { pin_id } => CommandView::Settled { pin: pin_id@ },
            Command::WatchWindow { window, width, height } => CommandView::WatchWindow {
                window: *window,
                width: *width,
                height: *height,
            },
            Command::ForgetWindow { window } => CommandView::ForgetWindow { window: *window },
            Command::ForgetAllWindows => CommandView::ForgetAllWindows,
            Command::CloseWindow { window } => CommandView::CloseWindow { window: *window },
            Command::TurnWindow { window } => CommandView::TurnWindow { window: *window },
            Command::ShowImage { pin_id, image } => CommandView::ShowImage {
                pin: pin_id@,
                picture: image@,
            },
            Command::DropImage { pin_id } => CommandView::DropImage { pin: pin_id@ },
            Command::DropAllImages => CommandView::DropAllImages,
            Command::Copy { pin_id, image } => CommandView::Copy {
                pin: pin_id@,
                picture: image@,
            },
            Command::Save { pin_id, image } => CommandView::Save {
                pin: pin_id@,
                picture: image@,
            },
            Command::Transform { pin_id, image, swap_logical } => CommandView::Transform {
                pin: pin_id@,
                picture: image@,
                swap_logical: *swap_logical,
            },
        }
    }
}

/// What a list of commands asks for.
pub open spec fn commands_view(commands: Seq<Command>) -> Seq<CommandView> {
    commands.map_values(|c: Command| c@)
}

/// Which window shows which pin.
#[verifier::ext_equal]
pub struct Windows {
    /// The window of a pin.
    pub pin_to_window: Map<u64, u64>,
    /// The pin of a window.
    pub window_to_pin: Map<u64, u64>,
    /// The pixels that are drawn for a pin.
    pub shown: Map<u64, Picture>,
}

/// What a message comes to: the windows and the registry after it, and what the
/// windowing system is to do.
#[verifier::ext_equal]
pub struct Outcome {
    pub windows: Windows,
    pub registry: Registry,
    pub commands: Seq<CommandView>,
}

/// What is asked for when an action is applied to a picture.
pub open spec fn action_command(pin: u64, action: PinAction, picture: Picture) -> CommandView {
    match action {
        PinActionKind::Copy => CommandView::Copy { pin, picture },
        PinActionKind::Save => CommandView::Save { pin, picture },
        PinActionKind::RotateRight => CommandView::Transform {
            pin,
            picture: image_ops::turned_right(picture),
            swap_logical: true,
        },
        PinActionKind::RotateLeft => CommandView::Transform {
            pin,
            picture: image_ops::turned_left(picture),
            swap_logical: true,
        },
        PinActionKind::FlipH => CommandView::Transform {
            pin,
            picture: image_ops::mirrored(picture),
            swap_logical: false,
        },
        PinActionKind::FlipV => CommandView::Transform {
            pin,
            picture: image_ops::upended(picture),
            swap_logical: false,
        },
    }
}

impl Windows {
    /// No windows.
    pub open spec fn none() -> Windows {
        Windows {
            pin_to_window: Map::empty(),
            window_to_pin: Map::empty(),
            shown: Map::empty(),
        }
    }

    /// Nothing happens.
    pub open spec fn idle(self, registry: Registry) -> Outcome {
        Outcome { windows: self, registry, commands: Seq::empty() }
    }

    /// A window is opened for a pin that is there and has none. For any other pin
    /// there is nothing to wait for.
    pub open spec fn on_open_pin(self, registry: Registry, pin: u64) -> Outcome {
        if self.pin_to_window.contains_key(pin) || !registry.pins.contains_key(pin) {
            Outcome { windows: self, registry, commands: seq![CommandView::Settled { pin }] }
        } else {
            let size = registry.pins[pin].logical;
            Outcome {
                windows: self,
                registry,
                commands: seq![CommandView::OpenWindow { pin, width: size.0, height: size.1 }],
            }
        }
    }

    /// The window of a pin is closed.
    pub open spec fn on_close_pin(self, registry: Registry, pin: u64) -> Outcome {
        if self.pin_to_window.contains_key(pin) {
            let window = self.pin_to_window[pin];
            Outcome {
                windows: Windows {
                    pin_to_window: self.pin_to_window.remove(pin),
                    window_to_pin: self.window_to_pin.remove(window),
                    shown: self.shown.remove(pin),
                },
                registry,
                commands: seq![
                    CommandView::ForgetWindow { window },
                    CommandView::DropImage { pin },
                    CommandView::CloseWindow { window },
                ],
            }
        } else {
            self.idle(registry)
        }
    }

    /// Every window is closed.
    pub open spec fn on_close_all(self, registry: Registry) -> Outcome {
        Outcome {
            windows: Windows::none(),
            registry,
            commands: seq![CommandView::ForgetAllWindows, CommandView::DropAllImages]
                + order::in_order(self.window_to_pin.dom()).map_values(
                |window: u64| CommandView::CloseWindow { window },
            ),
        }
    }

    /// An action is applied to a pin, if it is there.
    pub open spec fn on_pin_action(self, registry: Registry, pin: u64, action: PinAction) -> Outcome {
        if registry.pins.contains_key(pin) {
            Outcome {
                windows: self,
                registry,
                commands: seq![action_command(pin, action, registry.pins[pin].picture)],
            }
        } else {
            self.idle(registry)
        }
    }

    /// A window is there. Its pixels are drawn from now on, unless they are
    /// already. A window of a pin that is gone counts as one unit in size.
    pub open spec fn on_window_opened(self, registry: Registry, window: u64, pin: u64) -> Outcome {
        let live = registry.pins.contains_key(pin);
        let fresh = live && !self.shown.contains_key(pin);
        let picture = registry.pins[pin].picture;
        let size = if live {
            registry.pins[pin].logical
        } else {
            (1, 1)
        };
        Outcome {
            windows: Windows {
                pin_to_window: self.pin_to_window.insert(pin, window),
                window_to_pin: self.window_to_pin.insert(window, pin),
                shown: if fresh {
                    self.shown.insert(pin, picture)
                } else {
                    self.shown
                },
            },
            registry,
            commands: (if fresh {
                seq![CommandView::ShowImage { pin, picture }]
            } else {
                Seq::empty()
            }).push(CommandView::WatchWindow { window, width: size.0, height: size.1 }).push(
                CommandView::Settled { pin },
            ),
        }
    }

    /// A window is gone, and its pin with it.
    pub open spec fn on_window_closed(self, registry: Registry, window: u64) -> Outcome {
        if self.window_to_pin.contains_key(window) {
            let pin = self.window_to_pin[window];
            Outcome {
                windows: Windows {
                    pin_to_window: self.pin_to_window.remove(pin),
                    window_to_pin: self.window_to_pin.remove(window),
                    shown: self.shown.remove(pin),
                },
                registry: registry.after_close(pin),
                commands: seq![
                    CommandView::ForgetWindow { window },
                    CommandView::DropImage { pin },
                ],
            }
        } else {
            Outcome {
                windows: self,
                registry,
                commands: seq![CommandView::ForgetWindow { window }],
            }
        }
    }

    /// A pin gets its new pixels, if it is still there; after a quarter turn its
    /// window is turned too.
    pub open spec fn on_transform_ready(
        self,
        registry: Registry,
        pin: u64,
        picture: Picture,
        swap_logical: bool,
        thumbnail_written: bool,
    ) -> Outcome {
        let after = registry.after_replace(pin, picture, swap_logical, thumbnail_written);
        if registry.pins.contains_key(pin) {
            Outcome {
                windows: Windows { shown: self.shown.insert(pin, picture), ..self },
                registry: after,
                commands: seq![CommandView::ShowImage { pin, picture }] + (if swap_logical
                    && self.pin_to_window.contains_key(pin) {
                    seq![CommandView::TurnWindow { window: self.pin_to_window[pin] }]
                } else {
                    Seq::empty()
                }),
            }
        } else {
            self.idle(after)
        }
    }

    /// What a message comes to.
    pub open spec fn on(self, registry: Registry, message: MessageView) -> Outcome {
        match message {
            MessageView::Event(AppEvent::OpenPin(pin)) => self.on_open_pin(registry, pin@),
            MessageView::Event(AppEvent::ClosePin(pin)) => self.on_close_pin(registry, pin@),
            MessageView::Event(AppEvent::CloseAllPins) => self.on_close_all(registry),
            MessageView::Event(AppEvent::PinAction { pin_id, action }) => self.on_pin_action(
                registry,
                pin_id@,
                action,
            ),
            MessageView::WindowOpened { window, pin } => self.on_window_opened(
                registry,
                window,
                pin,
            ),
            MessageView::WindowClosed(window) => self.on_window_closed(registry, window),
            MessageView::Action { window, action } => if self.window_to_pin.contains_key(window) {
                self.on_pin_action(registry, self.window_to_pin[window], action)
            } else {
                self.idle(registry)
            },
            MessageView::TransformReady { pin, picture, swap_logical, thumbnail_written } =>
            self.on_transform_ready(registry, pin, picture, swap_logical, thumbnail_written),
            MessageView::AsyncDone => self.idle(registry),
        }
    }
}

/// What a window has to draw.
#[derive(Debug)]
pub enum Content {
    /// The window belongs to no pin.
    NoPin,
    /// The pin of the window is gone.
    PinGone,
    /// The pixels of this pin.
    Image {
        /// The pin.
        pin_id: PinId,
        /// Its pixels.
        image: Arc<RgbaImage>,
    },
}

/// The identifier by which the compositor's rules know the windows of pins.
pub const PIN_APP_ID: &'static str = "osnip-pin";

/// The windows of the pins.
#[derive(Debug)]
pub struct App {
    pin_to_window: HashMap<u64, u64>,
    window_to_pin: HashMap<u64, u64>,
    handles: HashMap<u64, Arc<RgbaImage>>,
}

impl App {
    /// Which window shows which pin.
    pub closed spec fn windows(&self) -> Windows {
        Windows {
            pin_to_window: self.pin_to_window@,
            window_to_pin: self.window_to_pin@,
            shown: self.handles@.map_values(|image: Arc<RgbaImage>| image@),
        }
    }

    /// No windows yet.
    #[must_use]
    pub fn new() -> (r: App)
        ensures
            r.windows() == Windows::none(),
    {
        let r = App {
            pin_to_window: HashMap::new(),
            window_to_pin: HashMap::new(),
            handles: HashMap::new(),
        };
        assert(r.windows().shown =~= Map::empty());
        r
    }

    /// The title of every window.
    pub fn title(&self) -> (r: String)
        ensures
            r@ == "osnip"@,
    {
        "osnip".to_owned()
    }

    /// Takes in a message. The commands are to be carried out in order.
    pub fn update(&mut self, registry: &mut PinRegistry, message: Message) -> (r: Vec<Command>)
        ensures
            ({
                let outcome = old(self).windows().on(old(registry)@, message@);
                &&& final(self).windows() == outcome.windows
                &&& final(registry)@ == outcome.registry
                &&& commands_view(r@) == outcome.commands
            }),
    {
        match message {
            Message::Event(AppEvent::OpenPin(pin_id)) => self.open_pin(registry, pin_id),
            Message::Event(AppEvent::ClosePin(pin_id)) => self.close_pin(pin_id),
            Message::Event(AppEvent::CloseAllPins) => self.close_all_pins(),
            Message::Event(AppEvent::PinAction { pin_id, action }) => {
                self.dispatch_action(registry, pin_id, action)
            },
            Message::WindowOpened { window, pin_id } => {
                self.window_opened(registry, window, pin_id)
            },
            Message::WindowClosed(window) => self.window_closed(registry, window),
            Message::Action { window, action } => self.on_action(registry, window, action),
            Message::TransformReady { pin_id, image, swap_logical, thumbnail_written } => {
                self.transform_ready(registry, pin_id, image, swap_logical, thumbnail_written)
            },
            Message::AsyncDone => {
                let r: Vec<Command> = Vec::new();
                assert(commands_view(r@) =~= Seq::empty());
                r
            },
        }
    }

    /// Takes in a window that was opened.
    fn window_opened(&mut self, registry: &PinRegistry, window: u64, pin_id: PinId) -> (r: Vec<
        Command,
    >)
        ensures
            ({
                let outcome = old(self).windows().on_window_opened(registry@, window, pin_id@);
                &&& final(self).windows() == outcome.windows
                &&& registry@ == outcome.registry
                &&& commands_view(r@) == outcome.commands
            }),
    {
        let pin: u64 = pin_id.get();
        self.pin_to_window.insert(pin, window);
        self.window_to_pin.insert(window, pin);
        let mut r: Vec<Command> = Vec::new();
        assert(commands_view(r@) =~= Seq::empty());
        assert(self.windows().shown =~= old(self).windows().shown);
        if let Some(image) = registry.image(pin_id) {
            if !self.handles.contains_key(&pin) {
                let ghost picture = image@;
                self.handles.insert(pin, registry::share(&image));
                assert(self.windows().shown =~= old(self).windows().shown.insert(pin, picture));
                r.push(Command::ShowImage { pin_id, image });
                assert(commands_view(r@) =~= seq![CommandView::ShowImage { pin, picture }]);
            }
        }
        let (width, height) = match registry.logical_size(pin_id) {
            Some(size) => size,
            None => (1, 1),
        };
        let ghost before = r@;
        let watch = Command::WatchWindow { window, width, height };
        r.push(watch);
        assert(commands_view(r@) =~= commands_view(before).push(watch@));
        let ghost watched = r@;
        let settled = Command::Settled { pin_id };
        r.push(settled);
        assert(commands_view(r@) =~= commands_view(watched).push(settled@));
        r
    }

    /// Takes in a window that is gone.
    fn window_closed(&mut self, registry: &mut PinRegistry, window: u64) -> (r: Vec<Command>)
        ensures
            ({
                let outcome = old(self).windows().on_window_closed(old(registry)@, window);
                &&& final(self).windows() == outcome.windows
                &&& final(registry)@ == outcome.registry
                &&& commands_view(r@) == outcome.commands
            }),
    {
        match self.window_to_pin.remove(&window) {
            Some(pin) => {
                self.pin_to_window.remove(&pin);
                self.handles.remove(&pin);
                assert(self.windows().shown =~= old(self).windows().shown.remove(pin));
                let pin_id = PinId::new(pin);
                registry.close(pin_id);
                let r = vec![Command::ForgetWindow { window }, Command::DropImage { pin_id }];
                assert(commands_view(r@) =~= seq![
                    CommandView::ForgetWindow { window },
                    CommandView::DropImage { pin },
                ]);
                r
            },
            None => {
                assert(self.windows().window_to_pin =~= old(self).windows().window_to_pin);
                let r = vec![Command::ForgetWindow { window }];
                assert(commands_view(r@) =~= seq![CommandView::ForgetWindow { window }]);
                r
            },
        }
    }

    /// Applies a shortcut to the pin of the window that has the focus. Without
    /// one there is nothing to act on.
    fn on_action(&self, registry: &PinRegistry, window: u64, action: PinAction) -> (r: Vec<Command>)
        ensures
            commands_view(r@) == self.windows().on(
                registry@,
                MessageView::Action { window, action },
            ).commands,
    {
        match self.window_to_pin.get(&window) {
            Some(pin) => self.dispatch_action(registry, PinId::new(*pin), action),
            None => {
                let r: Vec<Command> = Vec::new();
                assert(commands_view(r@) =~= Seq::empty());
                r
            },
        }
    }

    /// Applies an action to a pin, whichever way it was asked for.
    fn dispatch_action(&self, registry: &PinRegistry, pin_id: PinId, action: PinAction) -> (r: Vec<
        Command,
    >)
        ensures
            commands_view(r@) == self.windows().on_pin_action(registry@, pin_id@, action).commands,
    {
        let image = match registry.image(pin_id) {
            Some(image) => image,
            None => {
                let r: Vec<Command> = Vec::new();
                assert(commands_view(r@) =~= Seq::empty());
                return r;
            },
        };
        let ghost picture = image@;
        let command = match action {
            PinActionKind::Copy => Command::Copy { pin_id, image },
            PinActionKind::Save => Command::Save { pin_id, image },
            PinActionKind::RotateRight => Command::Transform {
                pin_id,
                image: Arc::new(image_ops::rotate_right(&image)),
                swap_logical: true,
            },
            PinActionKind::RotateLeft => Command::Transform {
                pin_id,
                image: Arc::new(image_ops::rotate_left(&image)),
                swap_logical: true,
            },
            PinActionKind::FlipH => Command::Transform {
                pin_id,
                image: Arc::new(image_ops::flip_horizontal(&image)),
                swap_logical: false,
            },
            PinActionKind::FlipV => Command::Transform {
                pin_id,
                image: Arc::new(image_ops::flip_vertical(&image)),
                swap_logical: false,
            },
        };
        let r = vec![command];
        assert(commands_view(r@) =~= seq![action_command(pin_id@, action, picture)]);
        r
    }

    /// Gives a transformed pin its new pixels.
    fn transform_ready(
        &mut self,
        registry: &mut PinRegistry,
        pin_id: PinId,
        image: Arc<RgbaImage>,
        swap_logical: bool,
        thumbnail_written: bool,
    ) -> (r: Vec<Command>)
        ensures
            ({
                let outcome = old(self).windows().on_transform_ready(
                    old(registry)@,
                    pin_id@,
                    image@,
                    swap_logical,
                    thumbnail_written,
                );
                &&& final(self).windows() == outcome.windows
                &&& final(registry)@ == outcome.registry
                &&& commands_view(r@) == outcome.commands
            }),
    {
        let mut r: Vec<Command> = Vec::new();
        assert(commands_view(r@) =~= Seq::empty());
        let replaced = registry.replace_image(
            pin_id,
            registry::share(&image),
            swap_logical,
            thumbnail_written,
        );
        if !replaced {
            return r;
        }
        let pin: u64 = pin_id.get();
        let ghost picture = image@;
        self.handles.insert(pin, registry::share(&image));
        assert(self.windows().shown =~= old(self).windows().shown.insert(pin, picture));
        r.push(Command::ShowImage { pin_id, image });
        let ghost first = seq![CommandView::ShowImage { pin, picture }];
        assert(commands_view(r@) =~= first);
        if swap_logical {
            if let Some(window) = self.pin_to_window.get(&pin) {
                r.push(Command::TurnWindow { window: *window });
                assert(commands_view(r@) =~= first + seq![
                    CommandView::TurnWindow { window: *window },
                ]);
            }
        }
        assert(first + Seq::empty() =~= first);
        r
    }

    /// What a window has to draw.
    pub fn view(&self, window: u64) -> (r: Content)
        ensures
            match r {
                Content::NoPin => !self.windows().window_to_pin.contains_key(window),
                Content::PinGone => self.windows().window_to_pin.contains_key(window)
                    && !self.windows().shown.contains_key(self.windows().window_to_pin[window]),
                Content::Image { pin_id, image } => self.windows().window_to_pin.contains_key(window)
                    && pin_id@ == self.windows().window_to_pin[window] && self.windows().shown.contains_key(pin_id@)
                    && self.windows().shown[pin_id@] == image@,
            },
    {
        let pin: u64 = match self.window_to_pin.get(&window) {
            Some(pin) => *pin,
            None => {
                return Content::NoPin;
            },
        };
        match self.handles.get(&pin) {
            Some(image) => Content::Image { pin_id: PinId::new(pin), image: registry::share(image) },
            None => Content::PinGone,
        }
    }

    /// Opens a window for a new pin.
    fn open_pin(&self, registry: &PinRegistry, pin_id: PinId) -> (r: Vec<Command>)
        ensures
            commands_view(r@) == self.windows().on_open_pin(registry@, pin_id@).commands,
    {
        if !self.pin_to_window.contains_key(&pin_id.get()) {
            if let Some((width, height)) = registry.logical_size(pin_id) {
                let r = vec![Command::OpenWindow { pin_id, width, height }];
                assert(commands_view(r@) =~= seq![
                    CommandView::OpenWindow { pin: pin_id@, width, height },
                ]);
                return r;
            }
        }
        let r = vec![Command::Settled { pin_id }];
        assert(commands_view(r@) =~= seq![CommandView::Settled { pin: pin_id@ }]);
        r
    }

    /// Closes the window of a pin.
    fn close_pin(&mut self, pin_id: PinId) -> (r: Vec<Command>)
        ensures
            forall|registry: Registry|
                {
                    let outcome = #[trigger] old(self).windows().on_close_pin(registry, pin_id@);
                    &&& final(self).windows() == outcome.windows
                    &&& registry == outcome.registry
                    &&& commands_view(r@) == outcome.commands
                },
    {
        let pin: u64 = pin_id.get();
        match self.pin_to_window.remove(&pin) {
            Some(window) => {
                self.window_to_pin.remove(&window);
                self.handles.remove(&pin);
                assert(self.windows().shown =~= old(self).windows().shown.remove(pin));
                let r = vec![
                    Command::ForgetWindow { window },
                    Command::DropImage { pin_id },
                    Command::CloseWindow { window },
                ];
                assert(commands_view(r@) =~= seq![
                    CommandView::ForgetWindow { window },
                    CommandView::DropImage { pin },
                    CommandView::CloseWindow { window },
                ]);
                r
            },
            None => {
                assert(self.windows().pin_to_window =~= old(self).windows().pin_to_window);
                let r: Vec<Command> = Vec::new();
                assert(commands_view(r@) =~= Seq::empty());
                r
            },
        }
    }

    /// Closes every window.
    fn close_all_pins(&mut self) -> (r: Vec<Command>)
        ensures
            forall|registry: Registry|
                {
                    let outcome = #[trigger] old(self).windows().on_close_all(registry);
                    &&& final(self).windows() == outcome.windows
                    &&& registry == outcome.registry
                    &&& commands_view(r@) == outcome.commands
                },
    {
        let open = order::sorted_keys(&self.window_to_pin);
        self.pin_to_window.clear();
        self.window_to_pin.clear();
        self.handles.clear();
        assert(self.windows() =~= Windows::none()) by {
            assert(self.windows().shown =~= Map::empty());
        }
        let mut r = vec![Command::ForgetAllWindows, Command::DropAllImages];
        let ghost first = seq![CommandView::ForgetAllWindows, CommandView::DropAllImages];
        let ghost closings = open@.map_values(|window: u64| CommandView::CloseWindow { window });
        assert(commands_view(r@) =~= first + closings.take(0));
        for i in 0..open.len()
            invariant
                closings == open@.map_values(|window: u64| CommandView::CloseWindow { window }),
                commands_view(r@) == first + closings.take(i as int),
        {
            let ghost before = r@;
            let command = Command::CloseWindow { window: open[i] };
            r.push(command);
            assert(commands_view(r@) =~= commands_view(before).push(command@));
            assert(closings.take(i + 1) =~= closings.take(i as int).push(command@));
            assert(commands_view(r@) =~= first + closings.take(i + 1));
        }
        assert(closings.take(closings.len() as int) =~= closings);
        r
    }
}

impl Default for App {
    fn default() -> (r: App)
        ensures
            r.windows() == Windows::none(),
    {
        App::new()
    }
}

/// What a key stands for. Letters count in either case; `alt` makes a key mean
/// nothing.
pub open spec fn shortcut(key: Seq<char>, control: bool, alt: bool) -> Option<PinAction> {
    if alt {
        None
    } else if control {
        if key == "c"@ || key == "C"@ {
            Some(PinActionKind::Copy)
        } else if key == "s"@ || key == "S"@ {
            Some(PinActionKind::Save)
        } else {
            None
        }
    } else if key == "]"@ {
        Some(PinActionKind::RotateRight)
    } else if key == "["@ {
        Some(PinActionKind::RotateLeft)
    } else if key == "h"@ || key == "H"@ {
        Some(PinActionKind::FlipH)
    } else if key == "v"@ || key == "V"@ {
        Some(PinActionKind::FlipV)
    } else {
        None
    }
}

/// No key is two keys.
proof fn keys_differ()
    ensures
        "c"@ != "s"@ && "c"@ != "S"@ && "C"@ != "s"@ && "C"@ != "S"@,
        "]"@ != "["@ && "]"@ != "h"@ && "]"@ != "H"@ && "]"@ != "v"@ && "]"@ != "V"@,
        "["@ != "h"@ && "["@ != "H"@ && "["@ != "v"@ && "["@ != "V"@,
        "h"@ != "v"@ && "h"@ != "V"@ && "H"@ != "v"@ && "H"@ != "V"@,
{
    reveal_strlit("c");
    reveal_strlit("C");
    reveal_strlit("s");
    reveal_strlit("S");
    reveal_strlit("]");
    reveal_strlit("[");
    reveal_strlit("h");
    reveal_strlit("H");
    reveal_strlit("v");
    reveal_strlit("V");
    assert("c"@[0] == 'c' && "C"@[0] == 'C' && "s"@[0] == 's' && "S"@[0] == 'S');
    assert("]"@[0] == ']' && "["@[0] == '[');
    assert("h"@[0] == 'h' && "H"@[0] == 'H' && "v"@[0] == 'v' && "V"@[0] == 'V');
}

/// What a key stands for: with `control`, `C` copies and `S` saves; without, `]`
/// and `[` rotate and `H` and `V` flip.
pub fn key_to_action(key: &str, control: bool, alt: bool) -> (r: Option<PinAction>)
    ensures
        r == shortcut(key@, control, alt),
        r == Some(PinActionKind::Copy) <==> control && !alt && (key@ == "c"@ || key@ == "C"@),
        r == Some(PinActionKind::Save) <==> control && !alt && (key@ == "s"@ || key@ == "S"@),
        r == Some(PinActionKind::RotateRight) <==> !control && !alt && key@ == "]"@,
        r == Some(PinActionKind::RotateLeft) <==> !control && !alt && key@ == "["@,
        r == Some(PinActionKind::FlipH) <==> !control && !alt && (key@ == "h"@ || key@ == "H"@),
        r == Some(PinActionKind::FlipV) <==> !control && !alt && (key@ == "v"@ || key@ == "V"@),
{
    proof {
        keys_differ();
    }
    if alt {
        return None;
    }
    if control {
        if text::same(key, "c") || text::same(key, "C") {
            return Some(PinActionKind::Copy);
        }
        if text::same(key, "s") || text::same(key, "S") {
            return Some(PinActionKind::Save);
        }
        return None;
    }
    if text::same(key, "]") {
        return Some(PinActionKind::RotateRight);
    }
    if text::same(key, "[") {
        return Some(PinActionKind::RotateLeft);
    }
    if text::same(key, "h") || text::same(key, "H") {
        return Some(PinActionKind::FlipH);
    }
    if text::same(key, "v") || text::same(key, "V") {
        return Some(PinActionKind::FlipV);
    }
    None
}

/// Whether the window of a pin always belongs to that pin.
pub open spec fn owned(w: Windows) -> bool {
    forall|pin: u64| #[trigger]
        w.pin_to_window.contains_key(pin) ==> w.window_to_pin.contains_key(w.pin_to_window[pin])
            && w.window_to_pin[w.pin_to_window[pin]] == pin
}

/// The window of a pin always belongs to that pin, whatever happens, as long as
/// no new window has the number of the window of another pin.
pub proof fn windows_stay_with_their_pins(w: Windows, registry: Registry, message: MessageView)
    requires
        owned(w),
        message matches MessageView::WindowOpened { window, pin } ==> forall|other: u64|
            other != pin && #[trigger] w.pin_to_window.contains_key(other)
                ==> w.pin_to_window[other] != window,
    ensures
        owned(w.on(registry, message).windows),
{
}

/// Whether windows and pins belong to each other one to one.
pub open spec fn paired(w: Windows) -> bool {
    &&& owned(w)
    &&& forall|window: u64| #[trigger]
        w.window_to_pin.contains_key(window) ==> w.pin_to_window.contains_key(
            w.window_to_pin[window],
        ) && w.pin_to_window[w.window_to_pin[window]] == window
}

/// Windows and pins stay in pairs, whatever happens, as long as each new window
/// is opened for a pin that has no other, and does not belong to another pin.
pub proof fn windows_and_pins_stay_paired(w: Windows, registry: Registry, message: MessageView)
    requires
        paired(w),
        message matches MessageView::WindowOpened { window, pin } ==> {
            &&& w.window_to_pin.contains_key(window) ==> w.window_to_pin[window] == pin
            &&& w.pin_to_window.contains_key(pin) ==> w.pin_to_window[pin] == window
        },
    ensures
        paired(w.on(registry, message).windows),
{
}

/// A pin that was closed has no window any more: its window is told to close,
/// and no window belongs to it.
pub proof fn closing_a_pin_closes_its_window(w: Windows, registry: Registry, pin_id: PinId)
    requires
        paired(w),
    ensures
        ({
            let after = w.on(registry, MessageView::Event(AppEvent::ClosePin(pin_id)));
            &&& !after.windows.pin_to_window.contains_key(pin_id@)
            &&& forall|window: u64| #[trigger]
                after.windows.window_to_pin.contains_key(window)
                    ==> after.windows.window_to_pin[window] != pin_id@
            &&& w.pin_to_window.contains_key(pin_id@) ==> after.commands.last() == (
            CommandView::CloseWindow { window: w.pin_to_window[pin_id@] })
        }),
{
}

/// After everything was closed there are no windows, and each one that was
/// there is told to close.
pub proof fn closing_all_pins_closes_every_window(w: Windows, registry: Registry, window: u64)
    requires
        w.window_to_pin.dom().finite(),
    ensures
        ({
            let after = w.on(registry, MessageView::Event(AppEvent::CloseAllPins));
            &&& after.windows == Windows::none()
            &&& after.commands.contains(CommandView::CloseWindow { window })
                <==> w.window_to_pin.contains_key(window)
        }),
{
    let after = w.on_close_all(registry);
    let open = order::in_order(w.window_to_pin.dom());
    let command = CommandView::CloseWindow { window };
    order::order_exists(w.window_to_pin.dom());
    if w.window_to_pin.contains_key(window) {
        assert(open.to_set().contains(window));
        let i = choose|i: int| 0 <= i < open.len() && open[i] == window;
        assert(after.commands[i + 2] == command);
    }
    if after.commands.contains(command) {
        let i = choose|i: int| 0 <= i < after.commands.len() && after.commands[i] == command;
        assert(open[i - 2] == window);
        assert(open.to_set().contains(window));
    }
}

/// A window that the compositor closed takes its pin with it.
pub proof fn closing_a_window_closes_its_pin(w: Windows, registry: Registry, window: u64)
    requires
        w.window_to_pin.contains_key(window),
    ensures
        ({
            let after = w.on(registry, MessageView::WindowClosed(window));
            let pin = w.window_to_pin[window];
            &&& !after.registry.pins.contains_key(pin)
            &&& after.registry.pins == registry.pins.remove(pin)
            &&& !after.windows.window_to_pin.contains_key(window)
            &&& !after.windows.shown.contains_key(pin)
        }),
{
    registry::closing_is_idempotent(registry, w.window_to_pin[window]);
}

/// A shortcut does exactly what a client gets when it asks for the same action
/// on the pin of that window.
pub proof fn keyboard_and_clients_agree(
    w: Windows,
    registry: Registry,
    window: u64,
    pin_id: PinId,
    action: PinAction,
)
    requires
        w.window_to_pin.contains_key(window),
        w.window_to_pin[window] == pin_id@,
    ensures
        w.on(registry, MessageView::Action { window, action }) == w.on(
            registry,
            MessageView::Event(AppEvent::PinAction { pin_id, action }),
        ),
{
}

/// What an action on a pin comes to once its thumbnail has been taken care of.
pub open spec fn acted(o: Outcome, pin: u64, action: PinAction, thumbnail_written: bool) -> Outcome {
    match action_command(pin, action, o.registry.pins[pin].picture) {
        CommandView::Transform { picture, swap_logical, .. } => o.windows.on_transform_ready(
            o.registry,
            pin,
            picture,
            swap_logical,
            thumbnail_written,
        ),
        _ => o,
    }
}

/// Transforms build on one another: four quarter turns in one direction, or a
/// turn and the turn back, or the same flip twice, leave a pin with the pixels
/// and the window size that it had.
pub proof fn transforms_compose(o: Outcome, pin: u64, action: PinAction, written: Seq<bool>)
    requires
        o.registry.pins.contains_key(pin),
        o.registry.pins[pin].picture.wf(),
        written.len() == 4,
    ensures
        ({
            let original = o.registry.pins[pin];
            let once = acted(o, pin, action, written[0]);
            let twice = acted(once, pin, action, written[1]);
            let thrice = acted(twice, pin, action, written[2]);
            let four = acted(thrice, pin, action, written[3]);
            let back = acted(
                once,
                pin,
                if action is RotateRight {
                    PinActionKind::RotateLeft
                } else {
                    PinActionKind::RotateRight
                },
                written[1],
            );
            &&& action is FlipH || action is FlipV ==> twice.registry.pins[pin].picture
                == original.picture && twice.registry.pins[pin].logical == original.logical
            &&& action is RotateRight || action is RotateLeft ==> {
                &&& four.registry.pins[pin].picture == original.picture
                &&& four.registry.pins[pin].logical == original.logical
                &&& back.registry.pins[pin].picture == original.picture
                &&& back.registry.pins[pin].logical == original.logical
            }
        }),
{
    let p = o.registry.pins[pin].picture;
    image_ops::transforms_keep_pictures_well_formed(p);
    image_ops::mirroring_twice_is_identity(p);
    image_ops::four_turns_are_identity(p);
    image_ops::turns_undo_each_other(p);
}

/// What happens to one pin leaves the pixels that are drawn for the others
/// alone.
pub proof fn other_pins_are_left_alone(
    w: Windows,
    registry: Registry,
    message: MessageView,
    other: u64,
)
    requires
        match message {
            MessageView::Event(AppEvent::ClosePin(pin_id)) => pin_id@ != other,
            MessageView::Event(e) => !(e is CloseAllPins),
            MessageView::WindowOpened { pin, .. } => pin != other,
            MessageView::WindowClosed(window) => w.window_to_pin.contains_key(window)
                ==> w.window_to_pin[window] != other,
            MessageView::TransformReady { pin, .. } => pin != other,
            _ => true,
        },
    ensures
        ({
            let after = w.on(registry, message);
            &&& after.windows.shown.contains_key(other) == w.shown.contains_key(other)
            &&& after.windows.shown[other] == w.shown[other] || !w.shown.contains_key(other)
            &&& after.registry.pins.contains_key(other) == registry.pins.contains_key(other)
            &&& registry.pins.contains_key(other) ==> after.registry.pins[other]
                == registry.pins[other]
        }),
{
}

/// Whether every pin that is there is drawn with the pixels that it has.
pub open spec fn up_to_date(w: Windows, registry: Registry) -> bool {
    forall|pin: u64| #[trigger]
        w.shown.contains_key(pin) && registry.pins.contains_key(pin) ==> w.shown[pin]
            == registry.pins[pin].picture
}

/// What is drawn of a pin always follows what the registry holds.
pub proof fn drawn_pixels_follow_the_registry(w: Windows, registry: Registry, message: MessageView)
    requires
        up_to_date(w, registry),
    ensures
        ({
            let after = w.on(registry, message);
            up_to_date(after.windows, after.registry)
        }),
{
    let after = w.on(registry, message);
    assert forall|pin: u64| #[trigger]
        after.windows.shown.contains_key(pin) && after.registry.pins.contains_key(
            pin,
        ) implies after.windows.shown[pin] == after.registry.pins[pin].picture by {
        assert(w.shown.contains_key(pin) && registry.pins.contains_key(pin) ==> w.shown[pin]
            == registry.pins[pin].picture);
    }
}

/// Whoever waits for the window of a new pin is never left waiting: either a window
/// is on its way, and settles the matter when it is there, or the matter is settled
/// at once.
pub proof fn every_new_pin_is_settled(w: Windows, registry: Registry, pin_id: PinId, window: u64)
    ensures
        ({
            let opened = w.on(registry, MessageView::Event(AppEvent::OpenPin(pin_id))).commands;
            let there = w.on(registry, MessageView::WindowOpened { window, pin: pin_id@ }).commands;
            let settled = CommandView::Settled { pin: pin_id@ };
            &&& opened.len() == 1
            &&& opened[0] is OpenWindow || opened[0] == settled
            &&& opened[0] == settled <==> w.pin_to_window.contains_key(pin_id@)
                || !registry.pins.contains_key(pin_id@)
            &&& there.last() == settled
        }),
{
}

/// Nothing is settled too early: once it is, the window of the pin is up, or the
/// pin is gone.
pub proof fn a_settled_pin_has_its_window(
    w: Windows,
    registry: Registry,
    message: MessageView,
    pin: u64,
)
    requires
        w.on(registry, message).commands.contains(CommandView::Settled { pin }),
    ensures
        w.on(registry, message).windows.pin_to_window.contains_key(pin)
            || !registry.pins.contains_key(pin),
{
}

/// A list of commands is kept in order, and each says what it holds.
pub proof fn commands_say_what_they_hold(commands: Seq<Command>, i: int)
    requires
        0 <= i < commands.len(),
    ensures
        commands_view(commands).len() == commands.len(),
        match commands[i] {
            Command::OpenWindow { pin_id, width, height } => commands_view(commands)[i] == (
            CommandView::OpenWindow { pin: pin_id@, width, height }),
            Command::Settled { pin_id } => commands_view(commands)[i] == (CommandView::Settled {
                pin: pin_id@,
            }),
            Command::WatchWindow { window, width, height } => commands_view(commands)[i] == (
            CommandView::WatchWindow { window, width, height }),
            Command::ForgetWindow { window } => commands_view(commands)[i] == (
            CommandView::ForgetWindow { window }),
            Command::ForgetAllWindows => commands_view(commands)[i] == CommandView::ForgetAllWindows,
            Command::CloseWindow { window } => commands_view(commands)[i] == (
            CommandView::CloseWindow { window }),
            Command::TurnWindow { window } => commands_view(commands)[i] == (
            CommandView::TurnWindow { window }),
            Command::ShowImage { pin_id, image } => commands_view(commands)[i] == (
            CommandView::ShowImage { pin: pin_id@, picture: image@ }),
            Command::DropImage { pin_id } => commands_view(commands)[i] == (
            CommandView::DropImage { pin: pin_id@ }),
            Command::DropAllImages => commands_view(commands)[i] == CommandView::DropAllImages,
            Command::Copy { pin_id, image } => commands_view(commands)[i] == (CommandView::Copy {
                pin: pin_id@,
                picture: image@,
            }),
            Command::Save { pin_id, image } => commands_view(commands)[i] == (CommandView::Save {
                pin: pin_id@,
                picture: image@,
            }),
            Command::Transform { pin_id, image, swap_logical } => commands_view(commands)[i] == (
            CommandView::Transform { pin: pin_id@, picture: image@, swap_logical }),
        },
{
}

/// A message says what it holds.
pub proof fn messages_say_what_they_hold(message: Message)
    ensures
        match message {
            Message::Event(event) => message@ == MessageView::Event(event),
            Message::WindowOpened { window, pin_id } => message@ == (MessageView::WindowOpened {
                window,
                pin: pin_id@,
            }),
            Message::WindowClosed(window) => message@ == MessageView::WindowClosed(window),
            Message::Action { window, action } => message@ == (MessageView::Action {
                window,
                action,
            }),
            Message::TransformReady { pin_id, image, swap_logical, thumbnail_written } => message@
                == (MessageView::TransformReady {
                pin: pin_id@,
                picture: image@,
                swap_logical,
                thumbnail_written,
            }),
            Message::AsyncDone => message@ == MessageView::AsyncDone,
        },
{
}

/// Whether `picture` shows, of the pixel in column `x` of row `y` of `p`, the same
/// bytes in column `u` of row `v`.
pub open spec fn moved(p: Picture, x: int, y: int, picture: Picture, u: int, v: int) -> bool {
    forall|c: int|
        0 <= c < 4 ==> picture.pixels[(v * picture.width + u) * 4 + c] == #[trigger] p.pixels[(y
            * p.width + x) * 4 + c]
}

/// Where each pixel of a pin goes when the pin is turned or mirrored: a turn to the
/// right takes the pixel at `(x, y)` to `(height - 1 - y, x)`, one to the left to
/// `(y, width - 1 - x)`, mirroring left to right to `(width - 1 - x, y)` and top to
/// bottom to `(x, height - 1 - y)`. Only the turns exchange width and height, of the
/// picture and of the window.
pub proof fn actions_move_pixels(
    w: Windows,
    registry: Registry,
    pin_id: PinId,
    action: PinAction,
    x: int,
    y: int,
)
    requires
        registry.pins.contains_key(pin_id@),
        !(action is Copy) && !(action is Save),
        0 <= x < registry.pins[pin_id@].picture.width,
        0 <= y < registry.pins[pin_id@].picture.height,
    ensures
        ({
            let p = registry.pins[pin_id@].picture;
            let after = w.on(
                registry,
                MessageView::Event(AppEvent::PinAction { pin_id, action }),
            );
            &&& after.windows == w && after.registry == registry
            &&& after.commands.len() == 1
            &&& after.commands[0] matches CommandView::Transform { pin, picture, swap_logical } && {
                &&& pin == pin_id@
                &&& picture.pixels.len() == picture.width * picture.height * 4
                &&& swap_logical == (action is RotateRight || action is RotateLeft)
                &&& swap_logical ==> picture.width == p.height && picture.height == p.width
                &&& !swap_logical ==> picture.width == p.width && picture.height == p.height
                &&& action is RotateRight ==> moved(p, x, y, picture, p.height - 1 - y, x)
                &&& action is RotateLeft ==> moved(p, x, y, picture, y, p.width - 1 - x)
                &&& action is FlipH ==> moved(p, x, y, picture, p.width - 1 - x, y)
                &&& action is FlipV ==> moved(p, x, y, picture, x, p.height - 1 - y)
            }
        }),
{
    let p = registry.pins[pin_id@].picture;
    let picture = action_command(pin_id@, action, p)->Transform_picture;
    image_ops::transforms_keep_pictures_well_formed(p);
    let (u, v) = match action {
        PinActionKind::RotateRight => (p.height - 1 - y, x),
        PinActionKind::RotateLeft => (y, p.width - 1 - x),
        PinActionKind::FlipH => (p.width - 1 - x, y),
        _ => (x, p.height - 1 - y),
    };
    assert forall|c: int| 0 <= c < 4 implies picture.pixels[(v * picture.width + u) * 4 + c]
        == #[trigger] p.pixels[(y * p.width + x) * 4 + c] by {
        image_ops::transforms_move_pixels(p, x, y, c);
        assert(picture.channel(u, v, c) == p.channel(x, y, c));
    }
}

/// To copy or to save a pin is one command, with the picture that the registry
/// holds for the pin at that moment. Nothing else changes.
pub proof fn copies_and_saves_hand_out_the_picture(w: Windows, registry: Registry, pin_id: PinId)
    requires
        registry.pins.contains_key(pin_id@),
    ensures
        ({
            let copied = w.on(
                registry,
                MessageView::Event(
                    AppEvent::PinAction { pin_id, action: PinActionKind::Copy },
                ),
            );
            let saved = w.on(
                registry,
                MessageView::Event(
                    AppEvent::PinAction { pin_id, action: PinActionKind::Save },
                ),
            );
            let picture = registry.pins[pin_id@].picture;
            &&& copied.commands == seq![CommandView::Copy { pin: pin_id@, picture }]
            &&& saved.commands == seq![CommandView::Save { pin: pin_id@, picture }]
            &&& copied.windows == w && copied.registry == registry
            &&& saved.windows == w && saved.registry == registry
        }),
{
}

/// An action on a pin that is gone, or in a window that belongs to none, does
/// nothing. A shortcut in a window acts on the pin of that window.
pub proof fn actions_without_a_pin_do_nothing(
    w: Windows,
    registry: Registry,
    pin_id: PinId,
    window: u64,
    action: PinAction,
)
    ensures
        ({
            let asked = w.on(
                registry,
                MessageView::Event(AppEvent::PinAction { pin_id, action }),
            );
            let pressed = w.on(registry, MessageView::Action { window, action });
            let done = w.on(registry, MessageView::AsyncDone);
            &&& !registry.pins.contains_key(pin_id@) ==> asked.commands.len() == 0 && asked.windows
                == w && asked.registry == registry
            &&& !w.window_to_pin.contains_key(window) ==> pressed.commands.len() == 0
                && pressed.windows == w && pressed.registry == registry
            &&& w.window_to_pin.contains_key(window) && w.window_to_pin[window] == pin_id@ ==> pressed
                == asked
            &&& done.commands.len() == 0 && done.windows == w && done.registry == registry
        }),
{
}

/// A window opens with exactly the logical size of its pin. A pin that is gone or
/// has a window already gets none. Opening changes neither windows nor pins.
pub proof fn windows_open_at_the_logical_size(w: Windows, registry: Registry, pin_id: PinId)
    ensures
        ({
            let after = w.on(registry, MessageView::Event(AppEvent::OpenPin(pin_id)));
            let pin = pin_id@;
            &&& after.windows == w && after.registry == registry
            &&& registry.pins.contains_key(pin) && !w.pin_to_window.contains_key(pin)
                ==> after.commands == seq![
                CommandView::OpenWindow {
                    pin,
                    width: registry.pins[pin].logical.0,
                    height: registry.pins[pin].logical.1,
                },
            ]
            &&& !registry.pins.contains_key(pin) || w.pin_to_window.contains_key(pin)
                ==> after.commands == seq![CommandView::Settled { pin }]
        }),
{
}

/// A window that was opened belongs to its pin from then on, and the pin to it. The
/// picture of the pin is drawn, unless it is already, and the proportions of the
/// window are kept at the logical size. No other window and no other pin is touched.
pub proof fn an_opened_window_shows_its_pin(w: Windows, registry: Registry, window: u64, pin: u64)
    ensures
        ({
            let after = w.on(registry, MessageView::WindowOpened { window, pin });
            let live = registry.pins.contains_key(pin);
            let kept = after.commands[after.commands.len() - 2];
            &&& after.registry == registry
            &&& after.windows.pin_to_window == w.pin_to_window.insert(pin, window)
            &&& after.windows.window_to_pin == w.window_to_pin.insert(window, pin)
            &&& live && !w.shown.contains_key(pin) ==> {
                &&& after.windows.shown == w.shown.insert(pin, registry.pins[pin].picture)
                &&& after.commands.len() == 3
                &&& after.commands[0] == (CommandView::ShowImage {
                    pin,
                    picture: registry.pins[pin].picture,
                })
            }
            &&& !live || w.shown.contains_key(pin) ==> {
                &&& after.windows.shown == w.shown
                &&& after.commands.len() == 2
            }
            &&& live ==> kept == (CommandView::WatchWindow {
                window,
                width: registry.pins[pin].logical.0,
                height: registry.pins[pin].logical.1,
            })
            &&& !live ==> kept == (CommandView::WatchWindow { window, width: 1, height: 1 })
            &&& after.commands.last() == (CommandView::Settled { pin })
        }),
{
}

/// A window that is gone takes its pin with it, and nothing else. Of a window that
/// belongs to no pin, only the proportions are forgotten.
pub proof fn a_closed_window_takes_only_its_pin(w: Windows, registry: Registry, window: u64)
    ensures
        ({
            let after = w.on(registry, MessageView::WindowClosed(window));
            let pin = w.window_to_pin[window];
            &&& w.window_to_pin.contains_key(window) ==> {
                &&& after.windows.pin_to_window == w.pin_to_window.remove(pin)
                &&& after.windows.window_to_pin == w.window_to_pin.remove(window)
                &&& after.windows.shown == w.shown.remove(pin)
                &&& after.registry == registry.after(registry::Step::Close { id: pin })
                &&& after.registry.pins == registry.pins.remove(pin)
                &&& after.commands == seq![
                    CommandView::ForgetWindow { window },
                    CommandView::DropImage { pin },
                ]
            }
            &&& !w.window_to_pin.contains_key(window) ==> {
                &&& after.windows == w
                &&& after.registry == registry
                &&& after.commands == seq![CommandView::ForgetWindow { window }]
            }
        }),
{
    registry::closing_is_idempotent(registry, w.window_to_pin[window]);
}

/// A pin that was closed takes its window with it, and nothing else; the registry
/// knows already. Without a window there is nothing to do.
pub proof fn a_closed_pin_takes_only_its_window(w: Windows, registry: Registry, pin_id: PinId)
    ensures
        ({
            let after = w.on(registry, MessageView::Event(AppEvent::ClosePin(pin_id)));
            let pin = pin_id@;
            let window = w.pin_to_window[pin];
            &&& after.registry == registry
            &&& w.pin_to_window.contains_key(pin) ==> {
                &&& after.windows.pin_to_window == w.pin_to_window.remove(pin)
                &&& after.windows.window_to_pin == w.window_to_pin.remove(window)
                &&& after.windows.shown == w.shown.remove(pin)
                &&& after.commands == seq![
                    CommandView::ForgetWindow { window },
                    CommandView::DropImage { pin },
                    CommandView::CloseWindow { window },
                ]
            }
            &&& !w.pin_to_window.contains_key(pin) ==> after.windows == w && after.commands.len()
                == 0
        }),
{
}

/// When everything is closed, each window is told to close exactly once, after all
/// of them have been forgotten, and the registry is left alone.
pub proof fn closing_all_pins_closes_each_window_once(w: Windows, registry: Registry)
    requires
        w.window_to_pin.dom().finite(),
    ensures
        ({
            let after = w.on(registry, MessageView::Event(AppEvent::CloseAllPins));
            &&& after.registry == registry
            &&& after.windows.pin_to_window.dom().is_empty()
            &&& after.windows.window_to_pin.dom().is_empty()
            &&& after.windows.shown.dom().is_empty()
            &&& after.commands.len() == w.window_to_pin.dom().len() + 2
            &&& after.commands[0] == CommandView::ForgetAllWindows
            &&& after.commands[1] == CommandView::DropAllImages
            &&& forall|i: int|
                2 <= i < after.commands.len() ==> (#[trigger] after.commands[i] matches
                CommandView::CloseWindow { window } && w.window_to_pin.contains_key(window))
            &&& forall|i: int, j: int|
                2 <= i < j < after.commands.len() ==> #[trigger] after.commands[i]
                    != #[trigger] after.commands[j]
        }),
{
    let open = order::in_order(w.window_to_pin.dom());
    let after = w.on_close_all(registry);
    order::order_exists(w.window_to_pin.dom());
    open.unique_seq_to_set();
    assert forall|i: int| 2 <= i < after.commands.len() implies (#[trigger] after.commands[i]
        matches CommandView::CloseWindow { window } && w.window_to_pin.contains_key(window)) by {
        assert(open.to_set().contains(open[i - 2]));
    }
    assert forall|i: int, j: int| 2 <= i < j < after.commands.len() implies #[trigger] after.commands[i]
        != #[trigger] after.commands[j] by {
        assert(open[i - 2] < open[j - 2]);
    }
    assert(after.windows.pin_to_window.dom() =~= Set::empty());
    assert(after.windows.window_to_pin.dom() =~= Set::empty());
    assert(after.windows.shown.dom() =~= Set::empty());
}

/// A pin that was transformed has the new picture, in the registry and on the
/// screen, and nothing else of the windows changes. After a quarter turn its logical
/// width and height have changed places, and its window is turned if it has one. A
/// pin that is gone stays gone.
pub proof fn a_transformed_pin_is_drawn_anew(
    w: Windows,
    registry: Registry,
    pin: u64,
    picture: Picture,
    swap_logical: bool,
    thumbnail_written: bool,
)
    ensures
        ({
            let after = w.on(
                registry,
                MessageView::TransformReady { pin, picture, swap_logical, thumbnail_written },
            );
            let old = registry.pins[pin].logical;
            let shown = CommandView::ShowImage { pin, picture };
            &&& after.windows.pin_to_window == w.pin_to_window
            &&& after.windows.window_to_pin == w.window_to_pin
            &&& after.registry == registry.after(
                registry::Step::Replace { id: pin, picture, swap_logical, written: thumbnail_written },
            )
            &&& registry.pins.contains_key(pin) ==> {
                &&& after.windows.shown == w.shown.insert(pin, picture)
                &&& after.registry.pins[pin].picture == picture
                &&& after.registry.pins[pin].width == picture.width
                &&& after.registry.pins[pin].height == picture.height
                &&& swap_logical ==> after.registry.pins[pin].logical == (old.1, old.0)
                &&& !swap_logical ==> after.registry.pins[pin].logical == old
                &&& swap_logical && w.pin_to_window.contains_key(pin) ==> after.commands == seq![
                    shown,
                    CommandView::TurnWindow { window: w.pin_to_window[pin] },
                ]
                &&& !swap_logical || !w.pin_to_window.contains_key(pin) ==> after.commands == seq![
                    shown,
                ]
            }
            &&& !registry.pins.contains_key(pin) ==> {
                &&& after.windows == w
                &&& after.registry.pins == registry.pins
                &&& after.commands.len() == 0
            }
        }),
{
}

/// At first there are no windows, and nothing is drawn.
pub proof fn there_are_no_windows_at_first()
    ensures
        Windows::none().pin_to_window.dom().is_empty(),
        Windows::none().window_to_pin.dom().is_empty(),
        Windows::none().shown.dom().is_empty(),
{
    assert(Windows::none().pin_to_window.dom() =~= Set::empty());
    assert(Windows::none().window_to_pin.dom() =~= Set::empty());
    assert(Windows::none().shown.dom() =~= Set::empty());
}

} // verus!
