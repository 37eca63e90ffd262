//! The set of live pins.
//!
//! The registry holds the authoritative set of pins. Numbers are handed out in
//! increasing order and never reused, so that a client can print one, act on
//! it later, and be certain to address the same pin.
//!
//! What has to happen outside of the process is queued as
//! [`RegistryEffect`]s, in order: every change of the set of pins publishes
//! the complete list after the change, and a closed pin takes its thumbnail
//! with it.

use crate::ipc;
use crate::ipc::{PinSummary, PinSummaryView};
use crate::order;
use crate::pin_id::PinId;
use crate::pixels::{Picture, RgbaImage};
use crate::thumbnail;
use std::collections::HashMap;
use std::sync::Arc;
use vstd::prelude::*;

verus! {

/// A live pin.
///
/// `width` and `height` are the dimensions of the image in pixels.
/// `logical_width` and `logical_height` are the size at which its window opens,
/// in the units of the compositor.
#[derive(Debug)]
struct PinEntry {
    width: u32,
    height: u32,
    logical_width: u32,
    logical_height: u32,
    created_at_unix_ms: u64,
    image: Arc<RgbaImage>,
    revision: u64,
    thumbnail: Option<Vec<u8>>,
}

/// What the registry knows of a pin.
#[verifier::ext_equal]
pub struct Pin {
    pub width: u32,
    pub height: u32,
    pub logical: (u32, u32),
    pub created_at_unix_ms: u64,
    pub picture: Picture,
    pub revision: u64,
    pub thumbnail: Option<Seq<u8>>,
}

impl View for PinEntry {
    type V = Pin;

    closed spec fn view(&self) -> Pin {
        Pin {
            width: self.width,
            height: self.height,
            logical: (self.logical_width, self.logical_height),
            created_at_unix_ms: self.created_at_unix_ms,
            picture: self.image@,
            revision: self.revision,
            thumbnail: ipc::path_view(self.thumbnail),
        }
    }
}

/// Something to be done outside of the registry.
#[derive(Debug)]
pub enum RegistryEffect {
    /// Delete the thumbnail at this path, if it exists.
    RemoveThumbnail {
        /// Where the thumbnail lies.
        path: Vec<u8>,
    },
    /// Tell every subscriber.
    Publish {
        /// Every live pin, after the change.
        pins: Vec<PinSummary>,
    },
}

/// What a [`RegistryEffect`] asks for.
pub enum Effect {
    RemoveThumbnail { path: Seq<u8> },
    Publish { pins: Seq<PinSummaryView> },
}

impl View for RegistryEffect {
    type V = Effect;

    open spec fn view(&self) -> Effect {
        match self {
            RegistryEffect::RemoveThumbnail { path } => Effect::RemoveThumbnail { path: path@ },
            RegistryEffect::Publish { pins } => Effect::Publish {
                pins: ipc::summaries_view(pins@),
            },
        }
    }
}

/// What a list of effects asks for.
pub open spec fn effects_view(effects: Seq<RegistryEffect>) -> Seq<Effect> {
    effects.map_values(|e: RegistryEffect| e@)
}

/// The state of a registry.
#[verifier::ext_equal]
pub struct Registry {
    /// The number of the next pin.
    pub next_id: u64,
    /// Where thumbnails are kept, if they are.
    pub thumb_dir: Option<Seq<u8>>,
    /// The live pins by number.
    pub pins: Map<u64, Pin>,
    /// What is to be done outside, oldest first.
    pub effects: Seq<Effect>,
}

/// The summary of a pin.
pub open spec fn summary_of(id: u64, pin: Pin) -> PinSummaryView {
    PinSummaryView {
        id,
        width: pin.width,
        height: pin.height,
        created_at_unix_ms: pin.created_at_unix_ms,
        thumbnail: pin.thumbnail,
        revision: pin.revision,
    }
}

impl Registry {
    /// An empty registry.
    pub open spec fn empty(thumb_dir: Option<Seq<u8>>) -> Registry {
        Registry { next_id: 1, thumb_dir, pins: Map::empty(), effects: Seq::empty() }
    }

    /// The summaries of all live pins, ordered by number.
    pub open spec fn snapshot(self) -> Seq<PinSummaryView> {
        order::in_order(self.pins.dom()).map_values(|id: u64| summary_of(id, self.pins[id]))
    }

    /// With one more thing to do outside.
    pub open spec fn then_do(self, effect: Effect) -> Registry {
        Registry { effects: self.effects.push(effect), ..self }
    }

    /// With the current list queued for the subscribers.
    pub open spec fn then_publish(self) -> Registry {
        self.then_do(Effect::Publish { pins: self.snapshot() })
    }

    /// With the removal of a pin's thumbnail queued, if there are thumbnails.
    pub open spec fn then_remove_thumbnail(self, id: u64) -> Registry {
        match self.thumb_dir {
            Some(dir) => self.then_do(
                Effect::RemoveThumbnail { path: thumbnail::path_of(dir, id) },
            ),
            None => self,
        }
    }

    /// With the removal of several thumbnails queued.
    pub open spec fn then_remove_thumbnails(self, ids: Seq<u64>) -> Registry
        decreases ids.len(),
    {
        if ids.len() == 0 {
            self
        } else {
            self.then_remove_thumbnails(ids.drop_last()).then_remove_thumbnail(ids.last())
        }
    }

    /// Where the thumbnail of a pin is, given whether it could be written.
    pub open spec fn written_thumbnail(self, id: u64, written: bool) -> Option<Seq<u8>> {
        match self.thumb_dir {
            Some(dir) if written => Some(thumbnail::path_of(dir, id)),
            _ => None,
        }
    }

    /// After what has to be done outside has been handed out.
    pub open spec fn after_take_effects(self) -> Registry {
        Registry { effects: Seq::empty(), ..self }
    }

    /// After a number has been handed out.
    pub open spec fn after_reserve(self) -> Registry {
        Registry {
            next_id: if self.next_id == u64::MAX {
                0
            } else {
                (self.next_id + 1) as u64
            },
            ..self
        }
    }

    /// After a pin has been added under a number that was handed out.
    pub open spec fn after_insert_reserved(
        self,
        id: u64,
        picture: Picture,
        logical_size: Option<(u32, u32)>,
        created_at_unix_ms: u64,
        written: bool,
    ) -> Registry {
        Registry {
            pins: self.pins.insert(
                id,
                Pin {
                    width: picture.width,
                    height: picture.height,
                    logical: match logical_size {
                        Some(size) => size,
                        None => (picture.width, picture.height),
                    },
                    created_at_unix_ms,
                    picture,
                    revision: 0,
                    thumbnail: self.written_thumbnail(id, written),
                },
            ),
            ..self
        }.then_publish()
    }

    /// After a pin has been added.
    pub open spec fn after_insert(
        self,
        picture: Picture,
        logical_size: Option<(u32, u32)>,
        created_at_unix_ms: u64,
        written: bool,
    ) -> Registry {
        self.after_reserve().after_insert_reserved(
            self.next_id,
            picture,
            logical_size,
            created_at_unix_ms,
            written,
        )
    }

    /// After a pin has been closed.
    pub open spec fn after_close(self, id: u64) -> Registry {
        if self.pins.contains_key(id) {
            Registry { pins: self.pins.remove(id), ..self }.then_remove_thumbnail(id).then_publish()
        } else {
            self
        }
    }

    /// After every pin has been closed.
    pub open spec fn after_close_all(self) -> Registry {
        if self.pins.dom().is_empty() {
            self
        } else {
            Registry { pins: Map::empty(), ..self }.then_remove_thumbnails(
                order::in_order(self.pins.dom()),
            ).then_publish()
        }
    }

    /// After the picture of a pin has been replaced.
    pub open spec fn after_replace(
        self,
        id: u64,
        picture: Picture,
        swap_logical: bool,
        written: bool,
    ) -> Registry {
        if self.pins.contains_key(id) {
            let pin = self.pins[id];
            Registry {
                pins: self.pins.insert(
                    id,
                    Pin {
                        width: picture.width,
                        height: picture.height,
                        logical: if swap_logical {
                            (pin.logical.1, pin.logical.0)
                        } else {
                            pin.logical
                        },
                        created_at_unix_ms: pin.created_at_unix_ms,
                        picture,
                        revision: if pin.revision == u64::MAX {
                            0
                        } else {
                            (pin.revision + 1) as u64
                        },
                        thumbnail: match self.written_thumbnail(id, written) {
                            Some(path) => Some(path),
                            None => pin.thumbnail,
                        },
                    },
                ),
                ..self
            }.then_publish()
        } else {
            self.then_remove_thumbnail(id)
        }
    }
}

/// The registry of live pins.
#[derive(Debug)]
pub struct PinRegistry {
    next_id: u64,
    thumb_dir: Option<Vec<u8>>,
    pins: HashMap<u64, PinEntry>,
    effects: Vec<RegistryEffect>,
}

impl View for PinRegistry {
    type V = Registry;

    closed spec fn view(&self) -> Registry {
        Registry {
            next_id: self.next_id,
            thumb_dir: ipc::path_view(self.thumb_dir),
            pins: self.pins@.map_values(|e: PinEntry| e@),
            effects: effects_view(self.effects@),
        }
    }
}

/// A second handle to the same image. `Arc::clone` gives a pointer to the
/// allocation that its argument points to.
#[verifier::external_body]
pub(crate) fn share(image: &Arc<RgbaImage>) -> (r: Arc<RgbaImage>)
    ensures
        r == *image,
{
    Arc::clone(image)
}

/// A copy of an optional path.
fn copy_path(path: &Option<Vec<u8>>) -> (r: Option<Vec<u8>>)
    ensures
        ipc::path_view(r) == ipc::path_view(*path),
{
    match path {
        Some(p) => Some(p.clone()),
        None => None,
    }
}

impl Default for PinRegistry {
    fn default() -> (r: PinRegistry)
        ensures
            r@ == Registry::empty(None),
    {
        PinRegistry::new()
    }
}

impl PinRegistry {
    /// An empty registry without thumbnails. Numbers start at 1.
    #[must_use]
    pub fn new() -> (r: PinRegistry)
        ensures
            r@ == Registry::empty(None),
    {
        let r = PinRegistry {
            next_id: 1,
            thumb_dir: None,
            pins: HashMap::new(),
            effects: Vec::new(),
        };
        assert(r@.pins =~= Map::empty());
        assert(r@.effects =~= Seq::empty());
        r
    }

    /// An empty registry that keeps thumbnails in `dir`. Whatever an earlier
    /// daemon left there has to be wiped first.
    #[must_use]
    pub fn with_thumbnail_dir(dir: Vec<u8>) -> (r: PinRegistry)
        ensures
            r@ == Registry::empty(Some(dir@)),
    {
        let r = PinRegistry {
            next_id: 1,
            thumb_dir: Some(dir),
            pins: HashMap::new(),
            effects: Vec::new(),
        };
        assert(r@.pins =~= Map::empty());
        assert(r@.effects =~= Seq::empty());
        r
    }

    /// Whether this registry keeps thumbnails.
    pub fn thumbnails_enabled(&self) -> (r: bool)
        ensures
            r == self@.thumb_dir is Some,
    {
        self.thumb_dir.is_some()
    }

    /// Where the thumbnail of a pin belongs, if there are thumbnails.
    pub fn thumbnail_path(&self, id: PinId) -> (r: Option<Vec<u8>>)
        ensures
            ipc::path_view(r) == self@.written_thumbnail(id@, true),
    {
        match &self.thumb_dir {
            Some(dir) => Some(thumbnail::path(dir, id)),
            None => None,
        }
    }

    /// Takes what has to be done outside, oldest first.
    pub fn take_effects(&mut self) -> (r: Vec<RegistryEffect>)
        ensures
            effects_view(r@) == old(self)@.effects,
            final(self)@ == old(self)@.after_take_effects(),
    {
        let mut r: Vec<RegistryEffect> = Vec::new();
        r.append(&mut self.effects);
        assert(r@ =~= old(self).effects@);
        assert(self@.effects =~= Seq::empty());
        r
    }

    /// The summaries of all live pins, ordered by number.
    pub fn list(&self) -> (r: Vec<PinSummary>)
        ensures
            ipc::summaries_view(r@) == self@.snapshot(),
            self@.pins.dom().finite(),
    {
        let ids = order::sorted_keys(&self.pins);
        assert(self@.pins.dom() =~= self.pins@.dom());
        let mut r: Vec<PinSummary> = Vec::new();
        for i in 0..ids.len()
            invariant
                ids@ == order::in_order(self@.pins.dom()),
                ids@.to_set() == self.pins@.dom(),
                ipc::summaries_view(r@) == self@.snapshot().take(i as int),
                self@.snapshot().len() == ids@.len(),
        {
            let id: u64 = ids[i];
            assert(ids@.to_set().contains(id));
            if let Some(entry) = self.pins.get(&id) {
                let summary = PinSummary {
                    id: PinId::new(id),
                    width: entry.width,
                    height: entry.height,
                    created_at_unix_ms: entry.created_at_unix_ms,
                    thumbnail: copy_path(&entry.thumbnail),
                    revision: entry.revision,
                };
                assert(self@.pins[id] == entry@);
                assert(summary@ == self@.snapshot()[i as int]);
                assert(ipc::summaries_view(r@.push(summary)) =~= ipc::summaries_view(r@).push(
                    summary@,
                ));
                assert(self@.snapshot().take(i + 1) =~= self@.snapshot().take(i as int).push(
                    summary@,
                ));
                r.push(summary);
            }
        }
        assert(self@.snapshot().take(ids@.len() as int) =~= self@.snapshot());
        r
    }

    /// Queues the current list for the subscribers.
    fn publish(&mut self)
        ensures
            final(self)@ == old(self)@.then_publish(),
    {
        let pins = self.list();
        let effect = RegistryEffect::Publish { pins };
        assert(effects_view(self.effects@.push(effect)) =~= effects_view(self.effects@).push(
            effect@,
        ));
        self.effects.push(effect);
    }

    /// Queues the removal of a pin's thumbnail, if there are thumbnails.
    fn remove_thumbnail(&mut self, id: PinId)
        ensures
            final(self)@ == old(self)@.then_remove_thumbnail(id@),
    {
        if let Some(path) = self.thumbnail_path(id) {
            let effect = RegistryEffect::RemoveThumbnail { path };
            assert(effects_view(self.effects@.push(effect)) =~= effects_view(self.effects@).push(
                effect@,
            ));
            self.effects.push(effect);
        }
    }

    /// Removes a pin. Tells whether it was there.
    pub fn close(&mut self, id: PinId) -> (r: bool)
        ensures
            r == old(self)@.pins.contains_key(id@),
            final(self)@ == old(self)@.after_close(id@),
    {
        let existed = self.pins.remove(&id.get()).is_some();
        assert(self@.pins =~= old(self)@.pins.remove(id@));
        if existed {
            self.remove_thumbnail(id);
            self.publish();
        } else {
            assert(self@.pins =~= old(self)@.pins);
        }
        existed
    }

    /// Removes every pin. Tells how many there were.
    pub fn close_all(&mut self) -> (r: usize)
        ensures
            r == old(self)@.pins.dom().len(),
            final(self)@ == old(self)@.after_close_all(),
    {
        let removed = order::sorted_keys(&self.pins);
        assert(self@.pins.dom() =~= self.pins@.dom());
        self.pins.clear();
        assert(self@.pins =~= Map::empty());
        let ghost cleared = self@;
        for i in 0..removed.len()
            invariant
                self@ == cleared.then_remove_thumbnails(removed@.take(i as int)),
        {
            assert(removed@.take(i + 1).drop_last() =~= removed@.take(i as int));
            self.remove_thumbnail(PinId::new(removed[i]));
        }
        assert(removed@.take(removed@.len() as int) =~= removed@);
        if removed.len() > 0 {
            assert(removed@.to_set().contains(removed@[0]));
            self.publish();
        } else {
            assert(removed@.to_set() =~= Set::<u64>::empty());
            assert(old(self)@.pins =~= Map::empty());
        }
        removed.len()
    }

    /// Hands out the number of a pin that is about to be added.
    pub fn reserve(&mut self) -> (r: PinId)
        ensures
            r@ == old(self)@.next_id,
            final(self)@ == old(self)@.after_reserve(),
    {
        let id: u64 = self.next_id;
        self.next_id = id.wrapping_add(1);
        PinId::new(id)
    }

    /// Adds a pin under a number from [`PinRegistry::reserve`].
    ///
    /// `logical_size` is the size at which the window opens, in the units of
    /// the compositor; without one the image opens at its own size.
    /// `thumbnail_written` tells whether the thumbnail is in place at
    /// [`PinRegistry::thumbnail_path`].
    pub fn insert_reserved(
        &mut self,
        id: PinId,
        image: Arc<RgbaImage>,
        logical_size: Option<(u32, u32)>,
        created_at_unix_ms: u64,
        thumbnail_written: bool,
    )
        ensures
            final(self)@ == old(self)@.after_insert_reserved(
                id@,
                image@,
                logical_size,
                created_at_unix_ms,
                thumbnail_written,
            ),
    {
        let width: u32 = image.width();
        let height: u32 = image.height();
        let (logical_width, logical_height) = match logical_size {
            Some(size) => size,
            None => (width, height),
        };
        let thumbnail = if thumbnail_written {
            self.thumbnail_path(id)
        } else {
            None
        };
        let entry = PinEntry {
            width,
            height,
            logical_width,
            logical_height,
            created_at_unix_ms,
            image,
            revision: 0,
            thumbnail,
        };
        let ghost added = entry@;
        self.pins.insert(id.get(), entry);
        assert(self@.pins =~= old(self)@.pins.insert(id@, added));
        self.publish();
    }

    /// Adds a pin and gives its number.
    pub fn insert(
        &mut self,
        image: Arc<RgbaImage>,
        logical_size: Option<(u32, u32)>,
        created_at_unix_ms: u64,
        thumbnail_written: bool,
    ) -> (r: PinId)
        ensures
            r@ == old(self)@.next_id,
            final(self)@ == old(self)@.after_insert(
                image@,
                logical_size,
                created_at_unix_ms,
                thumbnail_written,
            ),
    {
        let id = self.reserve();
        self.insert_reserved(id, image, logical_size, created_at_unix_ms, thumbnail_written);
        id
    }

    /// The image of a pin.
    pub fn image(&self, id: PinId) -> (r: Option<Arc<RgbaImage>>)
        ensures
            match r {
                Some(image) => self@.pins.contains_key(id@) && self@.pins[id@].picture == image@,
                None => !self@.pins.contains_key(id@),
            },
    {
        match self.pins.get(&id.get()) {
            Some(entry) => Some(share(&entry.image)),
            None => None,
        }
    }

    /// Replaces the image of a pin, so that further transforms compose. Tells
    /// whether the pin was there.
    ///
    /// `swap_logical` exchanges the logical width and height, as a quarter turn
    /// does.
    pub fn replace_image(
        &mut self,
        id: PinId,
        image: Arc<RgbaImage>,
        swap_logical: bool,
        thumbnail_written: bool,
    ) -> (r: bool)
        ensures
            r == old(self)@.pins.contains_key(id@),
            final(self)@ == old(self)@.after_replace(
                id@,
                image@,
                swap_logical,
                thumbnail_written,
            ),
    {
        let thumbnail = if thumbnail_written {
            self.thumbnail_path(id)
        } else {
            None
        };
        match self.pins.remove(&id.get()) {
            Some(old_entry) => {
                let entry = PinEntry {
                    width: image.width(),
                    height: image.height(),
                    logical_width: if swap_logical {
                        old_entry.logical_height
                    } else {
                        old_entry.logical_width
                    },
                    logical_height: if swap_logical {
                        old_entry.logical_width
                    } else {
                        old_entry.logical_height
                    },
                    created_at_unix_ms: old_entry.created_at_unix_ms,
                    image,
                    revision: old_entry.revision.wrapping_add(1),
                    thumbnail: match thumbnail {
                        Some(path) => Some(path),
                        None => old_entry.thumbnail,
                    },
                };
                let ghost added = entry@;
                assert(old(self)@.pins[id@] == old_entry@);
                self.pins.insert(id.get(), entry);
                assert(self@.pins =~= old(self)@.pins.insert(id@, added));
                self.publish();
                true
            },
            None => {
                assert(self@.pins =~= old(self)@.pins);
                self.remove_thumbnail(id);
                false
            },
        }
    }

    /// The size at which the window of a pin opens.
    pub fn logical_size(&self, id: PinId) -> (r: Option<(u32, u32)>)
        ensures
            r == if self@.pins.contains_key(id@) {
                Some(self@.pins[id@].logical)
            } else {
                None
            },
    {
        match self.pins.get(&id.get()) {
            Some(entry) => Some((entry.logical_width, entry.logical_height)),
            None => None,
        }
    }
}

/// Something that is done to a registry. To insert a pin is to reserve its
/// number and then to add it.
pub enum Step {
    Reserve,
    Add {
        id: u64,
        picture: Picture,
        logical_size: Option<(u32, u32)>,
        created_at_unix_ms: u64,
        written: bool,
    },
    Close { id: u64 },
    CloseAll,
    Replace { id: u64, picture: Picture, swap_logical: bool, written: bool },
    TakeEffects,
}

impl Step {
    /// Whether this changes what is listed in `before`.
    pub open spec fn takes_effect(self, before: Registry) -> bool {
        match self {
            Step::Reserve => false,
            Step::Add { .. } => true,
            Step::Close { id } => before.pins.contains_key(id),
            Step::CloseAll => !before.pins.dom().is_empty(),
            Step::Replace { id, .. } => before.pins.contains_key(id),
            Step::TakeEffects => false,
        }
    }
}

impl Registry {
    /// After one step.
    pub open spec fn after(self, step: Step) -> Registry {
        match step {
            Step::Reserve => self.after_reserve(),
            Step::Add {
                id,
                picture,
                logical_size,
                created_at_unix_ms,
                written,
            } => self.after_insert_reserved(id, picture, logical_size, created_at_unix_ms, written),
            Step::Close { id } => self.after_close(id),
            Step::CloseAll => self.after_close_all(),
            Step::Replace { id, picture, swap_logical, written } => self.after_replace(
                id,
                picture,
                swap_logical,
                written,
            ),
            Step::TakeEffects => self.after_take_effects(),
        }
    }

    /// What a step queues to be done outside.
    pub open spec fn queued_by(self, step: Step) -> Seq<Effect> {
        if step is TakeEffects {
            Seq::empty()
        } else {
            self.after(step).effects.skip(self.effects.len() as int)
        }
    }

    /// What has been handed out to be done outside in the course of several steps.
    pub open spec fn taken(self, steps: Seq<Step>) -> Seq<Effect>
        decreases steps.len(),
    {
        if steps.len() == 0 {
            Seq::empty()
        } else if steps.last() is TakeEffects {
            self.taken(steps.drop_last()) + self.after_all(steps.drop_last()).effects
        } else {
            self.taken(steps.drop_last())
        }
    }

    /// What has to be done outside after several steps, handed out already or not.
    pub open spec fn told(self, steps: Seq<Step>) -> Seq<Effect> {
        self.taken(steps) + self.after_all(steps).effects
    }

    /// After several steps.
    pub open spec fn after_all(self, steps: Seq<Step>) -> Registry
        decreases steps.len(),
    {
        if steps.len() == 0 {
            self
        } else {
            self.after_all(steps.drop_last()).after(steps.last())
        }
    }

    /// Whether what is listed of each pin agrees with its picture, and each
    /// thumbnail is where the thumbnail of its pin belongs.
    pub open spec fn coherent(self) -> bool {
        forall|id: u64| #[trigger]
            self.pins.contains_key(id) ==> {
                let pin = self.pins[id];
                &&& pin.width == pin.picture.width
                &&& pin.height == pin.picture.height
                &&& pin.thumbnail is Some ==> pin.thumbnail == self.written_thumbnail(id, true)
            }
    }
}

/// Queueing removals changes nothing but the queue.
proof fn removals_only_queue(r: Registry, ids: Seq<u64>)
    ensures
        ({
            let after = r.then_remove_thumbnails(ids);
            &&& after == (Registry { effects: after.effects, ..r })
            &&& after.effects.len() >= r.effects.len()
            &&& after.effects.take(r.effects.len() as int) == r.effects
            &&& forall|i: int|
                r.effects.len() <= i < after.effects.len()
                    ==> #[trigger] after.effects[i] is RemoveThumbnail
        }),
    decreases ids.len(),
{
    let after = r.then_remove_thumbnails(ids);
    if ids.len() > 0 {
        let rest = ids.drop_last();
        removals_only_queue(r, rest);
        let mid = r.then_remove_thumbnails(rest);
        assert(after.effects.take(r.effects.len() as int) =~= mid.effects.take(
            r.effects.len() as int,
        ));
    } else {
        assert(after.effects.take(r.effects.len() as int) =~= r.effects);
    }
}

/// How many numbers are handed out.
pub open spec fn handed_out(steps: Seq<Step>) -> nat
    decreases steps.len(),
{
    if steps.len() == 0 {
        0
    } else {
        handed_out(steps.drop_last()) + (if steps.last() is Reserve {
            1nat
        } else {
            0nat
        })
    }
}

/// A step hands out at most one number.
proof fn step_hands_out_at_most_one(r: Registry, step: Step)
    ensures
        !(step is Reserve) ==> r.after(step).next_id == r.next_id,
        step is Reserve && r.next_id < u64::MAX ==> r.after(step).next_id == r.next_id + 1,
{
    if step is CloseAll {
        removals_only_queue(
            Registry { pins: Map::empty(), ..r },
            order::in_order(r.pins.dom()),
        );
    }
}

/// The counter stands at as many numbers as were handed out.
proof fn the_counter_counts(r: Registry, steps: Seq<Step>)
    requires
        r.next_id + handed_out(steps) <= u64::MAX,
    ensures
        r.after_all(steps).next_id == r.next_id + handed_out(steps),
    decreases steps.len(),
{
    if steps.len() > 0 {
        the_counter_counts(r, steps.drop_last());
        step_hands_out_at_most_one(r.after_all(steps.drop_last()), steps.last());
    }
}

/// More steps hand out no fewer numbers.
proof fn handed_out_grows(steps: Seq<Step>, k: int)
    requires
        0 <= k <= steps.len(),
    ensures
        handed_out(steps.take(k)) <= handed_out(steps),
    decreases steps.len(),
{
    if k == steps.len() {
        assert(steps.take(k) =~= steps);
    } else {
        assert(steps.drop_last().take(k) =~= steps.take(k));
        handed_out_grows(steps.drop_last(), k);
    }
}

/// Numbers are never reused: whatever happens, each number that is handed out
/// is larger than all those before, until the 64-bit counter runs out.
pub proof fn numbers_are_never_reused(r: Registry, steps: Seq<Step>, i: int, j: int)
    requires
        0 <= i < j < steps.len(),
        steps[i] is Reserve,
        steps[j] is Reserve,
        r.next_id + handed_out(steps.take(j)) <= u64::MAX,
    ensures
        r.after_all(steps.take(i)).next_id < r.after_all(steps.take(j)).next_id,
{
    let before = steps.take(j);
    assert(before.take(i + 1).drop_last() =~= steps.take(i));
    assert(before.take(i + 1).last() == steps[i]);
    handed_out_grows(before, i + 1);
    the_counter_counts(r, steps.take(i));
    the_counter_counts(r, before);
}

/// Whether every live pin has a number that was handed out.
pub open spec fn numbered(r: Registry) -> bool {
    forall|id: u64| #[trigger] r.pins.contains_key(id) ==> id < r.next_id
}

/// Whether a step adds a pin only under a number that was handed out, and hands
/// one out only while there are any.
pub open spec fn orderly(r: Registry, step: Step) -> bool {
    match step {
        Step::Reserve => r.next_id < u64::MAX,
        Step::Add { id, .. } => id < r.next_id,
        _ => true,
    }
}

/// Whether every step of a history is orderly where it is taken.
pub open spec fn orderly_history(r: Registry, steps: Seq<Step>) -> bool
    decreases steps.len(),
{
    steps.len() == 0 || (orderly_history(r, steps.drop_last()) && orderly(
        r.after_all(steps.drop_last()),
        steps.last(),
    ))
}

/// Every live number stays below the counter, so that no number to come is that
/// of a live pin.
pub proof fn live_numbers_stay_below_the_counter(r: Registry, step: Step)
    requires
        numbered(r),
        orderly(r, step),
    ensures
        numbered(r.after(step)),
{
    step_hands_out_at_most_one(r, step);
    if step is CloseAll {
        removals_only_queue(
            Registry { pins: Map::empty(), ..r },
            order::in_order(r.pins.dom()),
        );
    }
    let after = r.after(step);
    assert forall|id: u64| #[trigger] after.pins.contains_key(id) implies id < after.next_id by {
        if r.pins.contains_key(id) {
        }
    }
}

/// In every orderly history of a new registry, every live number is below the
/// counter.
pub proof fn live_numbers_are_below_the_counter(thumb_dir: Option<Seq<u8>>, steps: Seq<Step>)
    requires
        orderly_history(Registry::empty(thumb_dir), steps),
    ensures
        numbered(Registry::empty(thumb_dir).after_all(steps)),
    decreases steps.len(),
{
    if steps.len() > 0 {
        live_numbers_are_below_the_counter(thumb_dir, steps.drop_last());
        live_numbers_stay_below_the_counter(
            Registry::empty(thumb_dir).after_all(steps.drop_last()),
            steps.last(),
        );
    }
}

/// To insert a pin is orderly, and the new pin comes last in the list; what was
/// listed before stays as it was.
pub proof fn inserted_pins_are_appended(
    r: Registry,
    picture: Picture,
    logical_size: Option<(u32, u32)>,
    created_at_unix_ms: u64,
    written: bool,
)
    requires
        r.pins.dom().finite(),
        numbered(r),
    ensures
        ({
            let after = r.after_insert(picture, logical_size, created_at_unix_ms, written);
            &&& after.snapshot() == r.snapshot().push(summary_of(r.next_id, after.pins[r.next_id]))
            &&& r.next_id < u64::MAX ==> numbered(after)
        }),
{
    let after = r.after_insert(picture, logical_size, created_at_unix_ms, written);
    let k = r.next_id;
    order::order_exists(r.pins.dom());
    order::the_largest_comes_last(r.pins.dom(), k);
    assert(after.pins.dom() =~= r.pins.dom().insert(k));
    let ids = order::in_order(r.pins.dom());
    assert forall|i: int| 0 <= i < ids.len() implies after.pins[#[trigger] ids[i]]
        == r.pins[ids[i]] by {
        assert(ids.to_set().contains(ids[i]));
        assert(r.pins.contains_key(ids[i]));
    }
    assert(after.snapshot() =~= r.snapshot().push(summary_of(k, after.pins[k])));
}

/// Every change is published, and nothing else is: a step that changes the
/// list ends by queueing the complete list after the change, exactly once, and
/// a step that changes nothing queues no list. What was queued before stays until
/// it is handed out.
pub proof fn every_change_is_published(r: Registry, step: Step)
    ensures
        ({
            let after = r.after(step);
            let queued = r.queued_by(step);
            &&& !(step is TakeEffects) ==> after.effects == r.effects + queued
            &&& step.takes_effect(r) ==> {
                &&& queued.len() > 0
                &&& queued.last() == (Effect::Publish { pins: after.snapshot() })
                &&& forall|i: int|
                    0 <= i < queued.len() - 1 ==> #[trigger] queued[i] is RemoveThumbnail
            }
            &&& !step.takes_effect(r) ==> {
                &&& after.pins == r.pins
                &&& after.snapshot() == r.snapshot()
                &&& forall|i: int|
                    0 <= i < queued.len() ==> #[trigger] queued[i] is RemoveThumbnail
            }
        }),
{
    let after = r.after(step);
    let queued = r.queued_by(step);
    let old_len = r.effects.len() as int;
    if step is CloseAll {
        let emptied = Registry { pins: Map::empty(), ..r };
        let ids = order::in_order(r.pins.dom());
        removals_only_queue(emptied, ids);
        let mid = emptied.then_remove_thumbnails(ids);
        if step.takes_effect(r) {
            assert(after.effects.take(old_len) =~= mid.effects.take(old_len));
            assert forall|i: int| 0 <= i < queued.len() - 1 implies #[trigger] queued[i]
                is RemoveThumbnail by {
                assert(queued[i] == mid.effects[old_len + i]);
            }
        }
    }
    if !(step is TakeEffects) {
        assert(after.effects.take(old_len) =~= r.effects);
        assert(after.effects =~= r.effects + queued);
    }
}

/// What is told grows by what each step queues: nothing is lost when it is handed
/// out, and nothing is handed out twice.
proof fn nothing_told_is_lost(r: Registry, steps: Seq<Step>)
    requires
        steps.len() > 0,
    ensures
        r.told(steps) == r.told(steps.drop_last()) + r.after_all(steps.drop_last()).queued_by(
            steps.last(),
        ),
{
    every_change_is_published(r.after_all(steps.drop_last()), steps.last());
    assert(r.told(steps) =~= r.told(steps.drop_last()) + r.after_all(
        steps.drop_last(),
    ).queued_by(steps.last()));
}

/// Everything that the steps queue is handed out once, in order, or is still
/// queued.
pub proof fn effects_are_handed_out_once(r: Registry, steps: Seq<Step>, step: Step)
    ensures
        r.told(steps.push(step)) == r.told(steps) + r.after_all(steps).queued_by(step),
        r.told(steps.push(Step::TakeEffects)) == r.taken(steps.push(Step::TakeEffects)),
{
    assert(steps.push(step).drop_last() =~= steps);
    assert(steps.push(Step::TakeEffects).drop_last() =~= steps);
    nothing_told_is_lost(r, steps.push(step));
}

/// The list that a subscriber holds who took the list `opening` and then every
/// one that was queued from position `from` on.
pub open spec fn latest_list(
    effects: Seq<Effect>,
    from: nat,
    opening: Seq<PinSummaryView>,
) -> Seq<PinSummaryView>
    decreases effects.len(),
{
    if effects.len() <= from {
        opening
    } else {
        match effects.last() {
            Effect::Publish { pins } => pins,
            Effect::RemoveThumbnail { .. } => latest_list(effects.drop_last(), from, opening),
        }
    }
}

/// Removals do not change what a subscriber holds.
proof fn removals_are_not_heard(
    effects: Seq<Effect>,
    from: nat,
    opening: Seq<PinSummaryView>,
    kept: nat,
)
    requires
        from <= kept <= effects.len(),
        forall|i: int| kept <= i < effects.len() ==> #[trigger] effects[i] is RemoveThumbnail,
    ensures
        latest_list(effects, from, opening) == latest_list(
            effects.take(kept as int),
            from,
            opening,
        ),
    decreases effects.len(),
{
    if effects.len() == kept {
        assert(effects.take(kept as int) =~= effects);
    } else {
        let rest = effects.drop_last();
        assert(rest.take(kept as int) =~= effects.take(kept as int));
        assert(effects[effects.len() - 1] is RemoveThumbnail);
        removals_are_not_heard(rest, from, opening, kept);
    }
}

/// A subscriber who took the list once and follows what is published from then on
/// always holds the current list, whatever happens.
pub proof fn subscribers_stay_up_to_date(r: Registry, steps: Seq<Step>)
    ensures
        r.told(steps).len() >= r.effects.len(),
        latest_list(r.told(steps), r.effects.len(), r.snapshot()) == r.after_all(
            steps,
        ).snapshot(),
    decreases steps.len(),
{
    if steps.len() == 0 {
        assert(r.told(steps) =~= r.effects);
    } else {
        let before = r.after_all(steps.drop_last());
        let step = steps.last();
        let told = r.told(steps);
        let earlier = r.told(steps.drop_last());
        subscribers_stay_up_to_date(r, steps.drop_last());
        every_change_is_published(before, step);
        nothing_told_is_lost(r, steps);
        if !step.takes_effect(before) {
            assert forall|i: int| earlier.len() <= i < told.len() implies #[trigger] told[i]
                is RemoveThumbnail by {
                assert(told[i] == before.queued_by(step)[i - earlier.len()]);
            }
            removals_are_not_heard(told, r.effects.len(), r.snapshot(), earlier.len());
            assert(told.take(earlier.len() as int) =~= earlier);
        }
    }
}

/// What is listed of a pin always agrees with its picture, and a thumbnail that
/// is listed is always the pin's own.
pub proof fn every_step_keeps_pins_coherent(r: Registry, step: Step)
    requires
        r.coherent(),
    ensures
        r.after(step).coherent(),
{
    if step is CloseAll {
        removals_only_queue(
            Registry { pins: Map::empty(), ..r },
            order::in_order(r.pins.dom()),
        );
    }
    assert forall|id: u64| #[trigger] r.after(step).pins.contains_key(id) implies {
        let pin = r.after(step).pins[id];
        &&& pin.width == pin.picture.width
        &&& pin.height == pin.picture.height
        &&& pin.thumbnail is Some ==> pin.thumbnail == r.after(step).written_thumbnail(id, true)
    } by {
        if r.pins.contains_key(id) {
        }
    }
}

/// Every history of a new registry keeps its pins coherent.
pub proof fn every_history_is_coherent(thumb_dir: Option<Seq<u8>>, steps: Seq<Step>)
    ensures
        Registry::empty(thumb_dir).after_all(steps).coherent(),
    decreases steps.len(),
{
    if steps.len() > 0 {
        every_history_is_coherent(thumb_dir, steps.drop_last());
        every_step_keeps_pins_coherent(
            Registry::empty(thumb_dir).after_all(steps.drop_last()),
            steps.last(),
        );
    }
}

/// No thumbnail outlives its pin: each pin that a step takes away has its
/// thumbnail removed, and no removal that a step queues concerns a pin that is
/// still there.
pub proof fn thumbnails_go_with_their_pins(r: Registry, step: Step, id: u64)
    requires
        r.pins.dom().finite(),
        r.thumb_dir is Some,
    ensures
        ({
            let after = r.after(step);
            let removal = Effect::RemoveThumbnail {
                path: thumbnail::path_of(r.thumb_dir->0, id),
            };
            let queued = r.queued_by(step);
            &&& r.pins.contains_key(id) && !after.pins.contains_key(id) ==> queued.contains(removal)
            &&& after.pins.contains_key(id) ==> !queued.contains(removal)
        }),
{
    let after = r.after(step);
    let dir = r.thumb_dir->0;
    let old_len = r.effects.len() as int;
    let removal = Effect::RemoveThumbnail { path: thumbnail::path_of(dir, id) };
    let queued = r.queued_by(step);
    every_change_is_published(r, step);
    if step is CloseAll {
        let emptied = Registry { pins: Map::empty(), ..r };
        let ids = order::in_order(r.pins.dom());
        let mid = emptied.then_remove_thumbnails(ids);
        removals_only_queue(emptied, ids);
        if r.pins.contains_key(id) {
            order::order_exists(r.pins.dom());
            assert(ids.to_set().contains(id));
            let k = choose|k: int| 0 <= k < ids.len() && ids[k] == id;
            removal_is_queued(emptied, ids, k);
            let i = choose|i: int|
                old_len <= i < mid.effects.len() && mid.effects[i] == (Effect::RemoveThumbnail {
                    path: thumbnail::path_of(dir, ids[k]),
                });
            assert(after.effects[i] == removal);
            assert(queued[i - old_len] == removal);
        }
    } else if step is Close && step->Close_id == id && r.pins.contains_key(id) {
        assert(after.effects[old_len] == removal);
        assert(queued[0] == removal);
    }
    if after.pins.contains_key(id) && queued.contains(removal) {
        let i = choose|i: int| 0 <= i < queued.len() && queued[i] == removal;
        assert(after.effects[old_len + i] == removal);
        match step {
            Step::Close { id: other } => {
                thumbnail::pins_have_their_own_thumbnails(dir, id, other);
            },
            Step::Replace { id: other, .. } => {
                thumbnail::pins_have_their_own_thumbnails(dir, id, other);
            },
            _ => {},
        }
    }
}

/// The removal of each thumbnail stands among what was queued.
proof fn removal_is_queued(r: Registry, ids: Seq<u64>, k: int)
    requires
        r.thumb_dir is Some,
        0 <= k < ids.len(),
    ensures
        exists|i: int|
            r.effects.len() <= i < r.then_remove_thumbnails(ids).effects.len()
                && #[trigger] r.then_remove_thumbnails(ids).effects[i]
                == (Effect::RemoveThumbnail {
                path: thumbnail::path_of(r.thumb_dir->0, ids[k]),
            }),
    decreases ids.len(),
{
    let rest = ids.drop_last();
    let mid = r.then_remove_thumbnails(rest);
    let after = r.then_remove_thumbnails(ids);
    let e = Effect::RemoveThumbnail { path: thumbnail::path_of(r.thumb_dir->0, ids[k]) };
    removals_only_queue(r, rest);
    if k < rest.len() {
        removal_is_queued(r, rest, k);
        let i = choose|i: int|
            r.effects.len() <= i < mid.effects.len() && #[trigger] mid.effects[i] == (
            Effect::RemoveThumbnail { path: thumbnail::path_of(r.thumb_dir->0, rest[k]) });
        assert(after.effects[i] == e);
    } else {
        assert(after.effects[mid.effects.len() as int] == e);
    }
}

/// The list is ordered by number and names every live pin exactly once.
pub proof fn the_list_is_sorted_and_complete(r: Registry)
    requires
        r.pins.dom().finite(),
    ensures
        forall|i: int, j: int|
            0 <= i < j < r.snapshot().len() ==> (#[trigger] r.snapshot()[i]).id < (
            #[trigger] r.snapshot()[j]).id,
        forall|i: int|
            0 <= i < r.snapshot().len() ==> {
                let s = #[trigger] r.snapshot()[i];
                r.pins.contains_key(s.id) && s == summary_of(s.id, r.pins[s.id])
            },
        forall|id: u64| #[trigger]
            r.pins.contains_key(id) ==> r.snapshot().contains(summary_of(id, r.pins[id])),
        r.snapshot().len() == r.pins.dom().len(),
{
    let ids = order::in_order(r.pins.dom());
    order::order_exists(r.pins.dom());
    assert forall|i: int| 0 <= i < r.snapshot().len() implies {
        let s = #[trigger] r.snapshot()[i];
        r.pins.contains_key(s.id) && s == summary_of(s.id, r.pins[s.id])
    } by {
        assert(ids.to_set().contains(ids[i]));
    }
    assert forall|id: u64| #[trigger] r.pins.contains_key(id) implies r.snapshot().contains(
        summary_of(id, r.pins[id]),
    ) by {
        assert(ids.to_set().contains(id));
        let k = choose|k: int| 0 <= k < ids.len() && ids[k] == id;
        assert(r.snapshot()[k] == summary_of(id, r.pins[id]));
    }
    ids.unique_seq_to_set();
}

/// Closing is idempotent: a closed pin is gone, and closing it again changes
/// nothing. No other pin is touched.
pub proof fn closing_is_idempotent(r: Registry, id: u64)
    ensures
        !r.after_close(id).pins.contains_key(id),
        r.after_close(id).after_close(id) == r.after_close(id),
        r.after_close(id).pins == r.pins.remove(id),
        r.after_close_all().pins == Map::<u64, Pin>::empty(),
        r.after_close_all().after_close_all() == r.after_close_all(),
{
    removals_only_queue(
        Registry { pins: Map::empty(), ..r },
        order::in_order(r.pins.dom()),
    );
    assert(r.after_close(id).pins =~= r.pins.remove(id));
    assert(r.after_close_all().pins =~= Map::empty());
    assert(r.after_close_all().pins.dom() =~= Set::empty());
}

/// Replacing the picture of a pin makes its revision grow, which tells a
/// viewer that the thumbnail changed, and touches no other pin. It keeps the
/// time of creation.
pub proof fn replacing_bumps_the_revision(
    r: Registry,
    id: u64,
    picture: Picture,
    swap_logical: bool,
    written: bool,
)
    requires
        r.pins.contains_key(id),
        r.pins[id].revision < u64::MAX,
    ensures
        ({
            let after = r.after_replace(id, picture, swap_logical, written);
            &&& after.pins[id].revision == r.pins[id].revision + 1
            &&& after.pins[id].picture == picture
            &&& after.pins[id].created_at_unix_ms == r.pins[id].created_at_unix_ms
            &&& after.pins.dom() == r.pins.dom()
            &&& forall|other: u64| other != id ==> #[trigger] after.pins[other] == r.pins[other]
        }),
{
    assert(r.pins.dom().insert(id) =~= r.pins.dom());
}

/// Two quarter turns leave the size of the window as it was.
pub proof fn swapping_twice_restores_the_window(
    r: Registry,
    id: u64,
    first: Picture,
    second: Picture,
    written_first: bool,
    written_second: bool,
)
    requires
        r.pins.contains_key(id),
    ensures
        r.after_replace(id, first, true, written_first).after_replace(
            id,
            second,
            true,
            written_second,
        ).pins[id].logical == r.pins[id].logical,
{
}

/// A pin that was added is there under its number, with its picture, and opens
/// at the given size, or else at the size of its picture. All others stay as
/// they were.
pub proof fn an_added_pin_can_be_read_back(
    r: Registry,
    picture: Picture,
    logical_size: Option<(u32, u32)>,
    created_at_unix_ms: u64,
    written: bool,
)
    ensures
        ({
            let after = r.after_insert(picture, logical_size, created_at_unix_ms, written);
            let pin = after.pins[r.next_id];
            &&& after.pins.dom() == r.pins.dom().insert(r.next_id)
            &&& pin.picture == picture
            &&& pin.created_at_unix_ms == created_at_unix_ms
            &&& pin.revision == 0
            &&& logical_size matches Some(size) ==> pin.logical == size
            &&& logical_size is None ==> pin.logical == (picture.width, picture.height)
            &&& forall|other: u64|
                other != r.next_id ==> #[trigger] after.pins[other] == r.pins[other]
        }),
{
}

/// The list tells of each pin what the registry holds: each entry has the number of a
/// live pin, the size of the picture that is held under that number, and the time of
/// creation, the thumbnail and the revision of that pin. Every live pin has its entry.
pub proof fn the_list_tells_what_is_held(r: Registry)
    requires
        r.pins.dom().finite(),
        r.coherent(),
    ensures
        r.snapshot().len() == r.pins.dom().len(),
        forall|i: int|
            0 <= i < r.snapshot().len() ==> {
                let s = #[trigger] r.snapshot()[i];
                &&& r.pins.contains_key(s.id)
                &&& s.width == r.pins[s.id].picture.width
                &&& s.height == r.pins[s.id].picture.height
                &&& s.created_at_unix_ms == r.pins[s.id].created_at_unix_ms
                &&& s.thumbnail == r.pins[s.id].thumbnail
                &&& s.revision == r.pins[s.id].revision
            },
        forall|id: u64| #[trigger]
            r.pins.contains_key(id) ==> exists|i: int|
                0 <= i < r.snapshot().len() && (#[trigger] r.snapshot()[i]).id == id,
{
    the_list_is_sorted_and_complete(r);
    assert forall|id: u64| #[trigger] r.pins.contains_key(id) implies exists|i: int|
        0 <= i < r.snapshot().len() && (#[trigger] r.snapshot()[i]).id == id by {
        let s = summary_of(id, r.pins[id]);
        let i = choose|i: int| 0 <= i < r.snapshot().len() && r.snapshot()[i] == s;
        assert(r.snapshot()[i].id == id);
    }
}

/// In a coherent registry the listed size of a pin is that of its picture, and its
/// thumbnail, if it has one, lies in the thumbnail directory under the number of the
/// pin.
pub proof fn coherent_pins_agree_with_their_pictures(r: Registry, id: u64)
    requires
        r.pins.contains_key(id),
    ensures
        r.coherent() ==> {
            &&& r.pins[id].width == r.pins[id].picture.width
            &&& r.pins[id].height == r.pins[id].picture.height
            &&& r.pins[id].thumbnail matches Some(path) ==> r.thumb_dir is Some && path
                == thumbnail::path_of(r.thumb_dir->0, id)
        },
        (forall|k: u64| #[trigger]
            r.pins.contains_key(k) ==> {
                &&& r.pins[k].width == r.pins[k].picture.width
                &&& r.pins[k].height == r.pins[k].picture.height
                &&& r.pins[k].thumbnail is None
            }) ==> r.coherent(),
{
}

/// A new registry hands out 1 first, and has no pins and nothing to do.
pub proof fn a_new_registry_is_empty(thumb_dir: Option<Seq<u8>>)
    ensures
        Registry::empty(thumb_dir).next_id == 1,
        Registry::empty(thumb_dir).thumb_dir == thumb_dir,
        Registry::empty(thumb_dir).pins.dom().is_empty(),
        Registry::empty(thumb_dir).effects.len() == 0,
        Registry::empty(thumb_dir).snapshot().len() == 0,
{
    let r = Registry::empty(thumb_dir);
    assert(r.pins.dom() =~= Set::empty());
    the_list_is_sorted_and_complete(r);
}

/// To hand out a number moves the counter on by one, and changes nothing else. To
/// hand out what has to be done empties the queue, and changes nothing else.
pub proof fn handing_out_changes_nothing_else(r: Registry)
    ensures
        r.next_id < u64::MAX ==> r.after_reserve().next_id == r.next_id + 1,
        r.next_id == u64::MAX ==> r.after_reserve().next_id == 0,
        r.after_reserve().pins == r.pins,
        r.after_reserve().thumb_dir == r.thumb_dir,
        r.after_reserve().effects == r.effects,
        r.after_take_effects().effects.len() == 0,
        r.after_take_effects().next_id == r.next_id,
        r.after_take_effects().pins == r.pins,
        r.after_take_effects().thumb_dir == r.thumb_dir,
{
}

/// A pin that was added under its number is what was given: the picture and its size,
/// the logical size or else that of the picture, the time, revision zero, and the
/// thumbnail if there are thumbnails and it was written. Every other pin stays as it
/// was, and the list after the change is published.
pub proof fn an_added_pin_is_what_was_given(
    r: Registry,
    id: u64,
    picture: Picture,
    logical_size: Option<(u32, u32)>,
    created_at_unix_ms: u64,
    written: bool,
)
    ensures
        ({
            let after = r.after_insert_reserved(
                id,
                picture,
                logical_size,
                created_at_unix_ms,
                written,
            );
            let pin = after.pins[id];
            &&& after.pins.contains_key(id)
            &&& after.pins.remove(id) == r.pins.remove(id)
            &&& pin.picture == picture
            &&& pin.width == picture.width
            &&& pin.height == picture.height
            &&& logical_size matches Some(size) ==> pin.logical == size
            &&& logical_size is None ==> pin.logical.0 == picture.width && pin.logical.1
                == picture.height
            &&& pin.created_at_unix_ms == created_at_unix_ms
            &&& pin.revision == 0
            &&& pin.thumbnail is Some <==> written && r.thumb_dir is Some
            &&& pin.thumbnail matches Some(path) ==> path == thumbnail::path_of(r.thumb_dir->0, id)
            &&& after.next_id == r.next_id
            &&& after.thumb_dir == r.thumb_dir
            &&& after.effects == r.effects.push(Effect::Publish { pins: after.snapshot() })
        }),
{
    let after = r.after_insert_reserved(id, picture, logical_size, created_at_unix_ms, written);
    assert(after.pins.remove(id) =~= r.pins.remove(id));
    assert(after.snapshot() == (Registry { effects: r.effects, ..after }).snapshot());
}

/// To add a pin is to hand out its number and to add it under that.
pub proof fn inserting_is_reserving_and_adding(
    r: Registry,
    picture: Picture,
    logical_size: Option<(u32, u32)>,
    created_at_unix_ms: u64,
    written: bool,
)
    ensures
        r.after_insert(picture, logical_size, created_at_unix_ms, written)
            == r.after_reserve().after_insert_reserved(
            r.next_id,
            picture,
            logical_size,
            created_at_unix_ms,
            written,
        ),
{
}

/// Closing a pin takes that pin away and no other, removes its thumbnail if there are
/// thumbnails, and publishes the list without it. Where there is no such pin nothing
/// happens.
pub proof fn closing_takes_one_pin(r: Registry, id: u64)
    ensures
        ({
            let after = r.after_close(id);
            let list = Effect::Publish { pins: after.snapshot() };
            &&& after.pins == r.pins.remove(id)
            &&& after.next_id == r.next_id
            &&& after.thumb_dir == r.thumb_dir
            &&& !r.pins.contains_key(id) ==> after.effects == r.effects
            &&& r.pins.contains_key(id) && r.thumb_dir is None ==> after.effects == r.effects.push(
                list,
            )
            &&& r.pins.contains_key(id) && r.thumb_dir is Some ==> after.effects == r.effects.push(
                Effect::RemoveThumbnail { path: thumbnail::path_of(r.thumb_dir->0, id) },
            ).push(list)
        }),
{
    let after = r.after_close(id);
    assert(after.pins =~= r.pins.remove(id));
    assert(after.snapshot() == (Registry { effects: r.effects, ..after }).snapshot());
    assert(after.snapshot() == (Registry { pins: r.pins.remove(id), ..r }).snapshot());
}

/// Closing all pins takes every one away, and keeps the counter and the directory.
/// The last thing that is queued is the empty list, and each thumbnail is removed once
/// before that, if there are thumbnails. Where there is no pin nothing happens.
pub proof fn closing_all_takes_every_pin(r: Registry)
    requires
        r.pins.dom().finite(),
    ensures
        ({
            let after = r.after_close_all();
            let n = r.pins.dom().len();
            let queued = after.effects.skip(r.effects.len() as int);
            &&& after.pins.dom().is_empty()
            &&& after.next_id == r.next_id
            &&& after.thumb_dir == r.thumb_dir
            &&& after.effects == r.effects + queued
            &&& n == 0 ==> queued.len() == 0
            &&& n > 0 ==> queued.last() == (Effect::Publish { pins: Seq::empty() })
            &&& n > 0 && r.thumb_dir is None ==> queued.len() == 1
            &&& n > 0 && r.thumb_dir is Some ==> queued.len() == n + 1
        }),
{
    let after = r.after_close_all();
    let ids = order::in_order(r.pins.dom());
    let emptied = Registry { pins: Map::empty(), ..r };
    order::order_exists(r.pins.dom());
    ids.unique_seq_to_set();
    removals_only_queue(emptied, ids);
    removals_are_counted(emptied, ids);
    closing_is_idempotent(r, 0);
    assert(after.pins.dom() =~= Set::empty());
    assert(r.pins.dom().is_empty() <==> r.pins.dom().len() == 0);
    every_change_is_published(r, Step::CloseAll);
    the_list_is_sorted_and_complete(after);
    assert(after.snapshot() =~= Seq::empty());
    assert(after.effects =~= r.effects + after.effects.skip(r.effects.len() as int));
}

/// One removal is queued for each thumbnail, if there are thumbnails.
proof fn removals_are_counted(r: Registry, ids: Seq<u64>)
    ensures
        r.then_remove_thumbnails(ids).effects.len() == r.effects.len() + if r.thumb_dir is Some {
            ids.len()
        } else {
            0
        },
        r.then_remove_thumbnails(ids).thumb_dir == r.thumb_dir,
    decreases ids.len(),
{
    if ids.len() > 0 {
        removals_are_counted(r, ids.drop_last());
    }
}

/// A pin whose picture was replaced has the new picture and its size, and the time
/// that it had. Its logical size stays, or its two numbers change places. Its revision
/// goes up by one. Its thumbnail stays where it was, unless a new one was written.
/// Every other pin stays as it was, and the list after the change is published. Where
/// there is no such pin, only the thumbnail is removed.
pub proof fn a_replaced_picture_is_what_was_given(
    r: Registry,
    id: u64,
    picture: Picture,
    swap_logical: bool,
    written: bool,
)
    ensures
        ({
            let after = r.after_replace(id, picture, swap_logical, written);
            let old = r.pins[id];
            let new = after.pins[id];
            &&& after.next_id == r.next_id
            &&& after.thumb_dir == r.thumb_dir
            &&& after.pins.dom() == r.pins.dom()
            &&& after.pins.remove(id) == r.pins.remove(id)
            &&& r.pins.contains_key(id) ==> {
                &&& new.picture == picture
                &&& new.width == picture.width
                &&& new.height == picture.height
                &&& new.created_at_unix_ms == old.created_at_unix_ms
                &&& swap_logical ==> new.logical.0 == old.logical.1 && new.logical.1
                    == old.logical.0
                &&& !swap_logical ==> new.logical == old.logical
                &&& old.revision < u64::MAX ==> new.revision == old.revision + 1
                &&& old.revision == u64::MAX ==> new.revision == 0
                &&& written && r.thumb_dir is Some ==> new.thumbnail == Some(
                    thumbnail::path_of(r.thumb_dir->0, id),
                )
                &&& !written || r.thumb_dir is None ==> new.thumbnail == old.thumbnail
                &&& after.effects == r.effects.push(Effect::Publish { pins: after.snapshot() })
            }
            &&& !r.pins.contains_key(id) && r.thumb_dir is Some ==> after.effects == r.effects.push(
                Effect::RemoveThumbnail { path: thumbnail::path_of(r.thumb_dir->0, id) },
            )
            &&& !r.pins.contains_key(id) && r.thumb_dir is None ==> after.effects == r.effects
        }),
{
    let after = r.after_replace(id, picture, swap_logical, written);
    assert(after.pins.dom() =~= r.pins.dom());
    assert(after.pins.remove(id) =~= r.pins.remove(id));
    assert(after.snapshot() == (Registry { effects: r.effects, ..after }).snapshot());
}

/// Where the thumbnail of a pin belongs.
pub proof fn thumbnails_belong_into_their_directory(r: Registry, id: u64, written: bool)
    ensures
        r.written_thumbnail(id, written) == if written && r.thumb_dir is Some {
            Some(thumbnail::path_of(r.thumb_dir->0, id))
        } else {
            None
        },
{
}

/// A list of effects is kept in order, and each says what it holds.
pub proof fn effects_say_what_they_hold(effects: Seq<RegistryEffect>, i: int)
    requires
        0 <= i < effects.len(),
    ensures
        effects_view(effects).len() == effects.len(),
        match effects[i] {
            RegistryEffect::RemoveThumbnail { path } => effects_view(effects)[i] == (
            Effect::RemoveThumbnail { path: path@ }),
            RegistryEffect::Publish { pins } => effects_view(effects)[i] == (Effect::Publish {
                pins: ipc::summaries_view(pins@),
            }),
        },
{
}

/// A step of a history is one operation.
pub proof fn steps_are_operations(r: Registry, step: Step)
    ensures
        match step {
            Step::Reserve => r.after(step) == r.after_reserve(),
            Step::Add { id, picture, logical_size, created_at_unix_ms, written } => r.after(step)
                == r.after_insert_reserved(id, picture, logical_size, created_at_unix_ms, written),
            Step::Close { id } => r.after(step) == r.after_close(id),
            Step::CloseAll => r.after(step) == r.after_close_all(),
            Step::Replace { id, picture, swap_logical, written } => r.after(step)
                == r.after_replace(id, picture, swap_logical, written),
            Step::TakeEffects => r.after(step) == r.after_take_effects(),
        },
{
}

} // verus!
