use vstd::prelude::*;

use crate::surface::{Surface, SurfaceView};
use crate::virtual_context::{draw_all, DrawOp, VirtualContext};

verus! {

/// Announces that the surface of a layer changed.
#[derive(Clone, Copy, Debug, PartialEq, Eq, Structural)]
pub enum Notification {
    Change { id: usize },
}

/// One notification to hand to one subscriber.
#[derive(Clone, Copy, Debug, PartialEq, Eq, Structural)]
pub struct Delivery {
    pub subscriber: usize,
    pub notification: Notification,
}

/// Why a layer operation was refused.
#[derive(Clone, Copy, Debug, PartialEq, Eq, Structural)]
pub enum LayerError {
    /// No layer has this id.
    UnknownLayer(usize),
}

/// A registered listener, known by the id `subscribe` handed out.
pub struct Subscriber {
    id: usize,
}

impl Subscriber {
    pub fn new(id: usize) -> (s: Subscriber)
        ensures
            s.spec_id() == id,
    {
        Subscriber { id }
    }

    pub closed spec fn spec_id(&self) -> usize {
        self.id
    }
}

/// One layer of the stack: its id, its drawing context and whether it is
/// the selected one.
pub struct Layer {
    id: usize,
    context: VirtualContext,
    is_selected: bool,
}

impl Layer {
    pub closed spec fn spec_id(&self) -> usize {
        self.id
    }

    pub closed spec fn spec_selected(&self) -> bool {
        self.is_selected
    }

    pub closed spec fn context(&self) -> VirtualContext {
        self.context
    }

    /// The layer's raster surface.
    pub open spec fn surface(&self) -> SurfaceView {
        self.context().surface()
    }

    fn new(id: usize, width: u16, height: u16) -> (l: Layer)
        ensures
            l.spec_id() == id,
            !l.spec_selected(),
            l.context().wf(),
            l.surface() == Surface::new_view(width, height),
    {
        Layer { id, context: VirtualContext::new(width, height), is_selected: false }
    }

    pub fn get_selected(&self) -> (r: bool)
        ensures
            r == self.spec_selected(),
    {
        self.is_selected
    }

    pub fn get_id(&self) -> (r: usize)
        ensures
            r == self.spec_id(),
    {
        self.id
    }

    /// The layer's context, for reading.
    pub fn get_context(&self) -> (r: &VirtualContext)
        ensures
            *r == self.context(),
    {
        &self.context
    }

    /// The layer's raster surface, for reading.
    pub fn get_canvas(&self) -> (r: &Surface)
        ensures
            r@ == self.surface(),
            self.context().wf() ==> r.wf(),
    {
        self.context.get_canvas()
    }
}

/// An ordered stack of layers, bottom to top in creation order, with at most
/// one selected layer and a list of subscribers to change notifications.
pub struct LayerManager {
    layers: Vec<Layer>,
    next_id: usize,
    selected: Option<usize>,
    width: u16,
    height: u16,
    subscribers: Vec<Subscriber>,
    next_subscriber_id: usize,
}

impl LayerManager {
    /// The layers, bottom to top.
    pub closed spec fn spec_layers(&self) -> Seq<Layer> {
        self.layers@
    }

    /// The id of the selected layer, if any.
    pub closed spec fn spec_selected(&self) -> Option<usize> {
        self.selected
    }

    /// The id the next pushed layer gets.
    pub closed spec fn spec_next_id(&self) -> nat {
        self.next_id as nat
    }

    /// The subscriber ids, in subscription order.
    pub closed spec fn spec_subscribers(&self) -> Seq<usize> {
        self.subscribers@.map_values(|s: Subscriber| s.id)
    }

    pub closed spec fn spec_width(&self) -> u16 {
        self.width
    }

    pub closed spec fn spec_height(&self) -> u16 {
        self.height
    }

    /// Layer `i` has id `i`; every context is well formed and of the stack's
    /// size; the selected flag is set on the selected layer alone; the
    /// subscribers are numbered in order.
    pub closed spec fn wf(&self) -> bool {
        &&& self.layers@.len() == self.next_id
        &&& forall|i: int|
            0 <= i < self.layers@.len() ==> {
                let l = #[trigger] self.layers@[i];
                &&& l.id == i
                &&& l.context.wf()
                &&& l.context.surface().width == self.width
                &&& l.context.surface().height == self.height
                &&& l.is_selected == (self.selected == Some(i as usize))
            }
        &&& (self.selected matches Some(s) ==> s < self.layers@.len())
        &&& self.subscribers@.len() == self.next_subscriber_id
        &&& forall|i: int|
            0 <= i < self.subscribers@.len() ==> (#[trigger] self.subscribers@[i]).id == i
    }

    /// The facts of `wf` that callers reason with.
    pub proof fn lemma_wf(&self)
        requires
            self.wf(),
        ensures
            self.spec_layers().len() == self.spec_next_id(),
            forall|i: int|
                0 <= i < self.spec_layers().len() ==> {
                    let l = #[trigger] self.spec_layers()[i];
                    &&& l.spec_id() == i
                    &&& l.context().wf()
                    &&& l.surface().width == self.spec_width()
                    &&& l.surface().height == self.spec_height()
                    &&& l.spec_selected() == (self.spec_selected() == Some(i as usize))
                },
            self.spec_selected() matches Some(s) ==> s < self.spec_layers().len(),
    {
    }

    /// An empty stack whose layers will have the given size.
    pub fn new(width: u16, height: u16) -> (m: LayerManager)
        ensures
            m.wf(),
            m.spec_layers().len() == 0,
            m.spec_next_id() == 0,
            m.spec_selected() == None::<usize>,
            m.spec_subscribers().len() == 0,
            m.spec_width() == width,
            m.spec_height() == height,
    {
        LayerManager {
            layers: Vec::new(),
            next_id: 0,
            selected: None,
            width,
            height,
            subscribers: Vec::new(),
            next_subscriber_id: 0,
        }
    }

    fn next_id(&mut self) -> (id: usize)
        requires
            old(self).next_id < usize::MAX,
        ensures
            id == old(self).next_id,
            final(self).next_id == old(self).next_id + 1,
            final(self).layers == old(self).layers,
            final(self).selected == old(self).selected,
            final(self).width == old(self).width,
            final(self).height == old(self).height,
            final(self).subscribers == old(self).subscribers,
            final(self).next_subscriber_id == old(self).next_subscriber_id,
    {
        let id = self.next_id;
        self.next_id = self.next_id + 1;
        id
    }

    fn next_subscriber_id(&mut self) -> (id: usize)
        requires
            old(self).next_subscriber_id < usize::MAX,
        ensures
            id == old(self).next_subscriber_id,
            final(self).next_subscriber_id == old(self).next_subscriber_id + 1,
            final(self).layers == old(self).layers,
            final(self).selected == old(self).selected,
            final(self).width == old(self).width,
            final(self).height == old(self).height,
            final(self).subscribers == old(self).subscribers,
            final(self).next_id == old(self).next_id,
    {
        let id = self.next_subscriber_id;
        self.next_subscriber_id = self.next_subscriber_id + 1;
        id
    }

    /// Adds a new, unselected layer on top, with the next id and a fully
    /// transparent surface.
    pub fn push_layer(&mut self)
        requires
            old(self).wf(),
            old(self).spec_next_id() < usize::MAX,
        ensures
            final(self).wf(),
            final(self).spec_layers().len() == old(self).spec_layers().len() + 1,
            final(self).spec_layers().drop_last() == old(self).spec_layers(),
            final(self).spec_layers().last().spec_id() == old(self).spec_next_id(),
            final(self).spec_layers().last().surface() == Surface::new_view(
                old(self).spec_width(),
                old(self).spec_height(),
            ),
            !final(self).spec_layers().last().spec_selected(),
            final(self).spec_next_id() == old(self).spec_next_id() + 1,
            final(self).spec_selected() == old(self).spec_selected(),
            final(self).spec_subscribers() == old(self).spec_subscribers(),
            final(self).spec_width() == old(self).spec_width(),
            final(self).spec_height() == old(self).spec_height(),
    {
        let id = self.next_id();
        let layer = Layer::new(id, self.width, self.height);
        self.layers.push(layer);
        assert(self.layers@.drop_last() =~= old(self).layers@);
    }

    /// The layer with the given id, if there is one.
    pub fn get_layer(&self, id: usize) -> (r: Option<&Layer>)
        requires
            self.wf(),
        ensures
            id < self.spec_layers().len() ==> r == Some(&self.spec_layers()[id as int]),
            id >= self.spec_layers().len() ==> r.is_none(),
    {
        let mut i: usize = 0;
        while i < self.layers.len()
            invariant
                self.wf(),
                i <= self.layers@.len(),
                forall|k: int| 0 <= k < i ==> (#[trigger] self.layers@[k]).id != id,
            decreases self.layers@.len() - i,
        {
            if self.layers[i].id == id {
                return Some(&self.layers[i]);
            }
            i += 1;
        }
        None
    }

    /// The layers, bottom to top; iterate in reverse for top first.
    pub fn iter_layers(&self) -> (r: &[Layer])
        ensures
            r@ == self.spec_layers(),
    {
        self.layers.as_slice()
    }

    /// Registers a subscriber and returns its id.
    pub fn subscribe(&mut self) -> (id: usize)
        requires
            old(self).wf(),
            old(self).spec_subscribers().len() < usize::MAX,
        ensures
            final(self).wf(),
            id == old(self).spec_subscribers().len(),
            final(self).spec_subscribers() == old(self).spec_subscribers().push(id),
            final(self).spec_layers() == old(self).spec_layers(),
            final(self).spec_selected() == old(self).spec_selected(),
            final(self).spec_next_id() == old(self).spec_next_id(),
            final(self).spec_width() == old(self).spec_width(),
            final(self).spec_height() == old(self).spec_height(),
    {
        let id = self.next_subscriber_id();
        self.subscribers.push(Subscriber::new(id));
        assert(self.subscribers@.map_values(|s: Subscriber| s.id) =~= old(self).subscribers@.map_values(|s: Subscriber| s.id).push(id));
        id
    }

    /// The selected layer, if any.
    pub fn get_selected(&self) -> (r: Option<&Layer>)
        requires
            self.wf(),
        ensures
            self.spec_selected() matches Some(s) ==> r == Some(&self.spec_layers()[s as int]),
            self.spec_selected() is None ==> r.is_none(),
    {
        if let Some(selected) = self.selected {
            return self.get_layer(selected);
        }
        None
    }

    /// Selects the layer with the given id and deselects the one selected
    /// before. An unknown id is refused and changes nothing.
    pub fn select(&mut self, id: usize) -> (r: Result<(), LayerError>)
        requires
            old(self).wf(),
        ensures
            final(self).wf(),
            id < old(self).spec_layers().len() ==> {
                &&& r is Ok
                &&& final(self).spec_selected() == Some(id)
                &&& final(self).spec_layers().len() == old(self).spec_layers().len()
                &&& forall|i: int|
                    0 <= i < old(self).spec_layers().len() ==> {
                        let a = #[trigger] final(self).spec_layers()[i];
                        let b = old(self).spec_layers()[i];
                        &&& a.spec_id() == b.spec_id()
                        &&& a.context() == b.context()
                        &&& a.spec_selected() == (i == id)
                    }
            },
            id >= old(self).spec_layers().len() ==> r == Err::<(), LayerError>(
                LayerError::UnknownLayer(id),
            ) && *final(self) == *old(self),
            final(self).spec_next_id() == old(self).spec_next_id(),
            final(self).spec_subscribers() == old(self).spec_subscribers(),
            final(self).spec_width() == old(self).spec_width(),
            final(self).spec_height() == old(self).spec_height(),
    {
        if id >= self.layers.len() {
            return Err(LayerError::UnknownLayer(id));
        }
        if let Some(was) = self.selected {
            self.layers[was].is_selected = false;
        }
        self.selected = Some(id);
        self.layers[id].is_selected = true;
        Ok(())
    }

    /// One change notification for each subscriber, in subscription order.
    fn notify(&self, notification: Notification) -> (r: Vec<Delivery>)
        requires
            self.wf(),
        ensures
            r@ == self.spec_subscribers().map_values(
                |s: usize| Delivery { subscriber: s, notification },
            ),
    {
        let mut out: Vec<Delivery> = Vec::new();
        let mut i: usize = 0;
        while i < self.subscribers.len()
            invariant
                self.wf(),
                i <= self.subscribers@.len(),
                out@ == self.spec_subscribers().subrange(0, i as int).map_values(
                    |s: usize| Delivery { subscriber: s, notification },
                ),
            decreases self.subscribers@.len() - i,
        {
            out.push(Delivery { subscriber: self.subscribers[i].id, notification });
            assert(self.spec_subscribers().subrange(0, i + 1) =~= self.spec_subscribers().subrange(
                0,
                i as int,
            ).push(self.subscribers@[i as int].id));
            i += 1;
            assert(out@ =~= self.spec_subscribers().subrange(0, i as int).map_values(
                |s: usize| Delivery { subscriber: s, notification },
            ));
        }
        assert(self.spec_subscribers().subrange(0, i as int) =~= self.spec_subscribers());
        out
    }

    /// Runs the operations on the selected layer and returns one change
    /// notification per subscriber, in subscription order. With no layer
    /// selected nothing changes and nothing is announced.
    pub fn draw_in_context(&mut self, ops: &Vec<DrawOp>) -> (r: Vec<Delivery>)
        requires
            old(self).wf(),
            forall|i: int| 0 <= i < ops@.len() ==> (#[trigger] ops@[i]).valid(),
        ensures
            final(self).wf(),
            old(self).spec_selected() is None ==> *final(self) == *old(self) && r@.len() == 0,
            old(self).spec_selected() matches Some(s) ==> {
                let before = old(self).spec_layers()[s as int];
                let after = final(self).spec_layers()[s as int];
                &&& final(self).spec_layers().len() == old(self).spec_layers().len()
                &&& forall|i: int|
                    0 <= i < old(self).spec_layers().len() && i != s ==> #[trigger] final(self).spec_layers()[i] == old(self).spec_layers()[i]
                &&& after.spec_id() == before.spec_id()
                &&& after.spec_selected() == before.spec_selected()
                &&& after.surface() == draw_all(ops@, before.surface())
                &&& r@ == old(self).spec_subscribers().map_values(
                    |sub: usize|
                        Delivery { subscriber: sub, notification: Notification::Change { id: s } },
                )
            },
            final(self).spec_selected() == old(self).spec_selected(),
            final(self).spec_next_id() == old(self).spec_next_id(),
            final(self).spec_subscribers() == old(self).spec_subscribers(),
            final(self).spec_width() == old(self).spec_width(),
            final(self).spec_height() == old(self).spec_height(),
    {
        match self.selected {
            None => Vec::new(),
            Some(s) => {
                let ghost old_layers = self.layers@;
                self.layers[s].context.apply_all(ops);
                proof {
                    let l = self.layers@[s as int];
                    l.context.lemma_wf();
                    old_layers[s as int].context.lemma_wf();
                    lemma_draw_all_keeps_size(ops@, old_layers[s as int].context.surface());
                    assert(self.layers@.len() == old_layers.len());
                    assert(forall|i: int|
                        0 <= i < old_layers.len() && i != s ==> #[trigger] self.layers@[i]
                            == old_layers[i]);
                    assert(self.layers@[s as int].id == old_layers[s as int].id);
                    assert(self.layers@[s as int].is_selected == old_layers[s as int].is_selected);
                }
                let id = self.layers[s].id;
                self.notify(Notification::Change { id })
            },
        }
    }
}

/// The layers' ids are their positions from the bottom (so a stack built by
/// `n` pushes holds ids `0..n` in push order): distinct, strictly increasing
/// from bottom to top, and all below the id the next pushed layer gets.
pub proof fn lemma_ids_increasing(m: &LayerManager)
    requires
        m.wf(),
    ensures
        forall|i: int|
            0 <= i < m.spec_layers().len() ==> (#[trigger] m.spec_layers()[i]).spec_id() == i,
        forall|i: int, j: int|
            0 <= i < j < m.spec_layers().len() ==> (#[trigger] m.spec_layers()[i]).spec_id()
                < (#[trigger] m.spec_layers()[j]).spec_id(),
        forall|i: int|
            0 <= i < m.spec_layers().len() ==> (#[trigger] m.spec_layers()[i]).spec_id()
                < m.spec_next_id(),
{
    m.lemma_wf();
}

/// At most one layer is selected: with a selection, exactly the layer with
/// the selected id carries the flag; without one, no layer does.
pub proof fn lemma_single_selection(m: &LayerManager)
    requires
        m.wf(),
    ensures
        forall|i: int|
            0 <= i < m.spec_layers().len() ==> (#[trigger] m.spec_layers()[i]).spec_selected()
                == (m.spec_selected() == Some(m.spec_layers()[i].spec_id())),
{
    m.lemma_wf();
}

/// Drawing never changes the size of the surface.
pub proof fn lemma_draw_all_keeps_size(ops: Seq<DrawOp>, s: SurfaceView)
    ensures
        draw_all(ops, s).width == s.width,
        draw_all(ops, s).height == s.height,
    decreases ops.len(),
{
    if ops.len() > 0 {
        lemma_draw_all_keeps_size(ops.drop_last(), s);
    }
}

} // verus!
