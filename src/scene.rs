use vstd::prelude::*;

use crate::value::InputWidgetValue;
use crate::widget::{after_chars, lemma_inactive_unchanged, InputWidget, InputWidgetState, Size};

verus! {

/// The signal that a graph node's value changed and must be propagated.
#[derive(Clone, Copy, Debug, PartialEq, Eq, Structural)]
pub enum ConnectionEvent {
    Propagate,
}

/// The input widgets of an editor and what they are connected to.
///
/// Widgets live in an arena indexed by position. `parents[i]` is the entity
/// that widget `i` belongs to; it is a graph node when `nodes[parents[i]]`
/// is `Some`, and the lookup fails otherwise. A widget's `text_entity`
/// indexes `texts`, the strings that the visual text elements display; the
/// lookup fails when it is out of range.
pub struct Scene<V> {
    pub widgets: Vec<InputWidget<V>>,
    pub parents: Vec<usize>,
    pub texts: Vec<String>,
    pub nodes: Vec<Option<V>>,
}

/// A scene with every value seen through its view.
pub struct SceneState<M> {
    pub widgets: Seq<InputWidgetState<M>>,
    pub parents: Seq<usize>,
    pub texts: Seq<Seq<char>>,
    pub nodes: Seq<Option<M>>,
}

/// A node slot seen through the view of the value it holds.
pub open spec fn node_view<V: View>(n: Option<V>) -> Option<V::V> {
    match n {
        Some(v) => Some(v@),
        None => None,
    }
}

impl<V: View> View for Scene<V> {
    type V = SceneState<V::V>;

    open spec fn view(&self) -> SceneState<V::V> {
        SceneState {
            widgets: self.widgets@.map_values(|w: InputWidget<V>| w@),
            parents: self.parents@,
            texts: self.texts@.map_values(|s: String| s@),
            nodes: self.nodes@.map_values(|n: Option<V>| node_view(n)),
        }
    }
}

impl<V: InputWidgetValue> Scene<V> {
    /// A scene with no widgets, text elements or nodes.
    pub fn new() -> (r: Scene<V>)
        ensures
            r@.widgets.len() == 0,
            r@.parents.len() == 0,
            r@.texts.len() == 0,
            r@.nodes.len() == 0,
    {
        Scene { widgets: Vec::new(), parents: Vec::new(), texts: Vec::new(), nodes: Vec::new() }
    }

    /// Adds an unfocused, clean widget holding `value` under `parent`, built
    /// with `area` and a new text element that shows nothing yet. Returns
    /// the widget's index.
    pub fn spawn_input_widget(&mut self, value: V, area: Size, parent: usize) -> (id: usize)
        requires
            old(self)@.wf(),
        ensures
            id == old(self).widgets.len(),
            final(self)@ == (SceneState {
                widgets: old(self)@.widgets.push(
                    InputWidgetState {
                        active: false,
                        dirty: false,
                        size: area,
                        text_entity: Some(old(self).texts.len()),
                        value: value@,
                    },
                ),
                parents: old(self)@.parents.push(parent),
                texts: old(self)@.texts.push(Seq::<char>::empty()),
                nodes: old(self)@.nodes,
            }),
    {
        let text_entity = self.texts.len();
        self.texts.push(String::new());
        let mut widget = InputWidget::new(value);
        widget.build(area, text_entity);
        let id = self.widgets.len();
        self.widgets.push(widget);
        self.parents.push(parent);
        proof {
            assert(self@.widgets =~= old(self)@.widgets.push(widget@));
            assert(self@.texts =~= old(self)@.texts.push(Seq::<char>::empty()));
        }
        id
    }
}

impl<M> SceneState<M> {
    /// Every widget has a parent.
    pub open spec fn wf(self) -> bool {
        self.parents.len() == self.widgets.len()
    }

    /// Distinct dirty widgets have distinct parents and distinct text elements.
    pub open spec fn distinct_targets(self) -> bool {
        forall|i: int, j: int|
            0 <= i < self.widgets.len() && 0 <= j < self.widgets.len() && i != j
                && #[trigger] self.widgets[i].dirty && #[trigger] self.widgets[j].dirty ==> {
                &&& self.parents[i] != self.parents[j]
                &&& self.widgets[i].text_entity is Some ==> self.widgets[i].text_entity
                    != self.widgets[j].text_entity
            }
    }

    /// Widget `i`'s text element exists.
    pub open spec fn has_text(self, i: int) -> bool {
        &&& self.widgets[i].text_entity is Some
        &&& self.widgets[i].text_entity->0 < self.texts.len()
    }

    /// Widget `i`'s parent is a graph node.
    pub open spec fn has_node(self, i: int) -> bool {
        &&& self.parents[i] < self.nodes.len()
        &&& self.nodes[self.parents[i] as int] is Some
    }
}

/// Every widget after the typed characters `cs`.
pub open spec fn after_input<V: InputWidgetValue>(s: SceneState<V::V>, cs: Seq<char>) -> SceneState<
    V::V,
> {
    SceneState {
        widgets: s.widgets.map_values(|w: InputWidgetState<V::V>| after_chars::<V>(w, cs)),
        ..s
    }
}

/// Publishes widget `i` if it is dirty: it becomes clean, its text element
/// shows its value, and its parent node, if there is one, takes its value.
pub open spec fn publish_one<V: InputWidgetValue>(s: SceneState<V::V>, i: int) -> SceneState<V::V> {
    let w = s.widgets[i];
    if !w.dirty {
        s
    } else {
        SceneState {
            widgets: s.widgets.update(i, InputWidgetState { dirty: false, ..w }),
            parents: s.parents,
            texts: if s.has_text(i) {
                s.texts.update(w.text_entity->0 as int, V::shown_of(w.value))
            } else {
                s.texts
            },
            nodes: if s.has_node(i) {
                s.nodes.update(s.parents[i] as int, Some(w.value))
            } else {
                s.nodes
            },
        }
    }
}

/// The scene after publishing the widgets before `k`, in order.
pub open spec fn published_upto<V: InputWidgetValue>(s: SceneState<V::V>, k: nat) -> SceneState<
    V::V,
>
    decreases k,
{
    if k == 0 {
        s
    } else {
        publish_one::<V>(published_upto::<V>(s, (k - 1) as nat), k - 1)
    }
}

/// How many node writes publishing the widgets before `k` makes.
pub open spec fn writes_upto<V: InputWidgetValue>(s: SceneState<V::V>, k: nat) -> nat
    decreases k,
{
    if k == 0 {
        0
    } else {
        let t = published_upto::<V>(s, (k - 1) as nat);
        writes_upto::<V>(s, (k - 1) as nat) + if t.widgets[k - 1].dirty && t.has_node(k - 1) {
            1nat
        } else {
            0nat
        }
    }
}

/// The scene after one publishing pass over all widgets.
pub open spec fn published<V: InputWidgetValue>(s: SceneState<V::V>) -> SceneState<V::V> {
    published_upto::<V>(s, s.widgets.len())
}

/// How many propagation signals one publishing pass emits.
pub open spec fn writes<V: InputWidgetValue>(s: SceneState<V::V>) -> nat {
    writes_upto::<V>(s, s.widgets.len())
}

/// `n` propagation signals.
pub open spec fn signals(n: nat) -> Seq<ConnectionEvent> {
    Seq::new(n, |j: int| ConnectionEvent::Propagate)
}

/// The input reducer: hands the typed characters `events`, in order, to
/// every widget. Only active widgets change (see `after_chars`); every
/// active widget receives every character.
pub fn input_widget_input<V: InputWidgetValue>(scene: &mut Scene<V>, events: &Vec<char>)
    ensures
        final(scene)@ == after_input::<V>(old(scene)@, events@),
        forall|i: int|
            0 <= i < old(scene).widgets.len() && !old(scene).widgets[i].active
                ==> final(scene).widgets[i]@ == old(scene).widgets[i]@,
{
    let n = scene.widgets.len();
    let mut i: usize = 0;
    while i < n
        invariant
            n == old(scene).widgets.len(),
            i <= n,
            scene.widgets.len() == n,
            scene.parents@ == old(scene).parents@,
            scene.texts@ == old(scene).texts@,
            scene.nodes@ == old(scene).nodes@,
            forall|j: int| 0 <= j < i ==> scene.widgets[j]@ == after_chars::<V>(old(scene).widgets[j]@, events@),
            forall|j: int| i <= j < n ==> scene.widgets[j] == old(scene).widgets[j],
        decreases n - i,
    {
        scene.widgets[i].receive_all(events);
        i = i + 1;
    }
    proof {
        let s = old(scene)@;
        assert(final(scene)@.widgets == after_input::<V>(s, events@).widgets);
        assert forall|j: int| 0 <= j < n && !old(scene).widgets[j].active implies
            final(scene).widgets[j]@ == old(scene).widgets[j]@ by {
            lemma_inactive_unchanged::<V>(old(scene).widgets[j]@, events@);
        }
    }
}

/// The publisher: each dirty widget, in order, becomes clean, its text
/// element (when it exists) shows its value, and its parent node (when the
/// parent is a graph node) takes a copy of its value, with one propagation
/// signal appended to `out` for each node written. A failed lookup skips
/// that step only.
pub fn input_widget_value<V: InputWidgetValue>(scene: &mut Scene<V>, out: &mut Vec<ConnectionEvent>)
    requires
        old(scene)@.wf(),
    ensures
        final(scene)@ == published::<V>(old(scene)@),
        final(out)@ == old(out)@ + signals(writes::<V>(old(scene)@)),
        final(scene).widgets.len() == old(scene).widgets.len(),
        final(scene).parents@ == old(scene).parents@,
        final(scene).texts.len() == old(scene).texts.len(),
        final(scene).nodes.len() == old(scene).nodes.len(),
{
    let n = scene.widgets.len();
    let mut i: usize = 0;
    while i < n
        invariant
            n == old(scene).widgets.len(),
            old(scene)@.wf(),
            i <= n,
            scene@ == published_upto::<V>(old(scene)@, i as nat),
            out@ == old(out)@ + signals(writes_upto::<V>(old(scene)@, i as nat)),
        decreases n - i,
    {
        let ghost before = scene@;
        let ghost out_before = out@;
        proof {
            lemma_published_shape::<V>(old(scene)@, i as nat);
        }
        if let Some(v) = scene.widgets[i].take_update() {
            if let Some(e) = scene.widgets[i].text_entity {
                if e < scene.texts.len() {
                    scene.texts.set(e, v.peek());
                }
            }
            let p = scene.parents[i];
            if p < scene.nodes.len() && scene.nodes[p].is_some() {
                scene.nodes.set(p, Some(v));
                out.push(ConnectionEvent::Propagate);
            }
        }
        proof {
            let t = publish_one::<V>(before, i as int);
            assert(scene@.widgets =~= t.widgets);
            assert(scene@.texts =~= t.texts);
            assert(scene@.nodes =~= t.nodes);
            assert(scene@ == t);
            assert(out@ =~= old(out)@ + signals(writes_upto::<V>(old(scene)@, (i + 1) as nat)));
        }
        i = i + 1;
    }
    proof {
        lemma_published_shape::<V>(old(scene)@, n as nat);
    }
}

/// Publishing keeps the number of widgets, their parents and the number of
/// text elements and nodes.
proof fn lemma_published_shape<V: InputWidgetValue>(s: SceneState<V::V>, k: nat)
    requires
        k <= s.widgets.len(),
    ensures
        published_upto::<V>(s, k).widgets.len() == s.widgets.len(),
        published_upto::<V>(s, k).parents == s.parents,
        published_upto::<V>(s, k).texts.len() == s.texts.len(),
        published_upto::<V>(s, k).nodes.len() == s.nodes.len(),
    decreases k,
{
    if k > 0 {
        lemma_published_shape::<V>(s, (k - 1) as nat);
    }
}

/// Runs one tick: the input reducer on `events`, then the publisher.
pub fn tick<V: InputWidgetValue>(scene: &mut Scene<V>, events: &Vec<char>, out: &mut Vec<ConnectionEvent>)
    requires
        old(scene)@.wf(),
    ensures
        final(scene)@ == published::<V>(after_input::<V>(old(scene)@, events@)),
        final(out)@ == old(out)@ + signals(writes::<V>(after_input::<V>(old(scene)@, events@))),
{
    input_widget_input(scene, events);
    input_widget_value(scene, out);
}

/// Publishing the widgets before `k` cleans exactly those widgets and
/// changes nothing else about any widget; nodes that exist keep existing.
proof fn lemma_published_widgets<V: InputWidgetValue>(s: SceneState<V::V>, k: nat)
    requires
        s.wf(),
        k <= s.widgets.len(),
    ensures
        forall|j: int|
            0 <= j < s.widgets.len() ==> #[trigger] published_upto::<V>(s, k).widgets[j] == (if j < k {
                InputWidgetState { dirty: false, ..s.widgets[j] }
            } else {
                s.widgets[j]
            }),
        forall|p: int|
            0 <= p < s.nodes.len() ==> (#[trigger] published_upto::<V>(s, k).nodes[p] is Some
                <==> s.nodes[p] is Some),
    decreases k,
{
    lemma_published_shape::<V>(s, k);
    if k > 0 {
        lemma_published_widgets::<V>(s, (k - 1) as nat);
        lemma_published_shape::<V>(s, (k - 1) as nat);
    }
}

/// One publishing pass leaves every widget clean; each widget that was
/// dirty has its text element show its value and its parent node hold its
/// value, where these exist. Distinct dirty widgets must not share a text
/// element or a parent, since the later write would win.
pub proof fn lemma_publish_settles<V: InputWidgetValue>(s: SceneState<V::V>)
    requires
        s.wf(),
        s.distinct_targets(),
    ensures
        forall|i: int| 0 <= i < s.widgets.len() ==> !(#[trigger] published::<V>(s).widgets[i]).dirty,
        forall|i: int|
            0 <= i < s.widgets.len() && #[trigger] s.widgets[i].dirty && s.has_text(i)
                ==> published::<V>(s).texts[s.widgets[i].text_entity->0 as int] == V::shown_of(
                s.widgets[i].value,
            ),
        forall|i: int|
            0 <= i < s.widgets.len() && #[trigger] s.widgets[i].dirty && s.has_node(i)
                ==> published::<V>(s).nodes[s.parents[i] as int] == Some(s.widgets[i].value),
{
    lemma_published_widgets::<V>(s, s.widgets.len());
    lemma_publish_settles_upto::<V>(s, s.widgets.len());
}

proof fn lemma_publish_settles_upto<V: InputWidgetValue>(s: SceneState<V::V>, k: nat)
    requires
        s.wf(),
        s.distinct_targets(),
        k <= s.widgets.len(),
    ensures
        forall|i: int|
            0 <= i < k && #[trigger] s.widgets[i].dirty && s.has_text(i)
                ==> published_upto::<V>(s, k).texts[s.widgets[i].text_entity->0 as int] == V::shown_of(
                s.widgets[i].value,
            ),
        forall|i: int|
            0 <= i < k && #[trigger] s.widgets[i].dirty && s.has_node(i)
                ==> published_upto::<V>(s, k).nodes[s.parents[i] as int] == Some(s.widgets[i].value),
    decreases k,
{
    if k > 0 {
        let m = (k - 1) as nat;
        lemma_publish_settles_upto::<V>(s, m);
        lemma_published_widgets::<V>(s, m);
        lemma_published_shape::<V>(s, m);
        let t = published_upto::<V>(s, m);
        let m_i = m as int;
        assert(t.widgets[m_i] == s.widgets[m_i]);
        assert(t.has_text(m_i) == s.has_text(m_i));
        if s.parents[m_i] < s.nodes.len() {
            assert(t.nodes[s.parents[m_i] as int] is Some <==> s.nodes[s.parents[m_i] as int] is Some);
        }
        assert(t.has_node(m_i) == s.has_node(m_i));
        assert forall|i: int|
            0 <= i < k && #[trigger] s.widgets[i].dirty && s.has_text(i) implies published_upto::<V>(
            s,
            k,
        ).texts[s.widgets[i].text_entity->0 as int] == V::shown_of(s.widgets[i].value) by {
            if i < m {
                assert(s.widgets[i].dirty);
                if s.widgets[m_i].dirty {
                    assert(s.widgets[i].text_entity != s.widgets[m_i].text_entity);
                }
            }
        }
        assert forall|i: int|
            0 <= i < k && #[trigger] s.widgets[i].dirty && s.has_node(i) implies published_upto::<V>(
            s,
            k,
        ).nodes[s.parents[i] as int] == Some(s.widgets[i].value) by {
            if i < m {
                if s.widgets[m_i].dirty {
                    assert(s.parents[i] != s.parents[m_i]);
                }
            }
        }
    }
}

/// A second publishing pass with no input in between changes nothing and
/// emits no signal.
pub proof fn lemma_publish_idempotent<V: InputWidgetValue>(s: SceneState<V::V>)
    requires
        s.wf(),
    ensures
        published::<V>(published::<V>(s)) == published::<V>(s),
        writes::<V>(published::<V>(s)) == 0,
{
    let t = published::<V>(s);
    lemma_published_shape::<V>(s, s.widgets.len());
    lemma_published_widgets::<V>(s, s.widgets.len());
    lemma_clean_pass_unchanged::<V>(t, t.widgets.len());
}

/// Publishing clean widgets changes nothing and writes no node.
proof fn lemma_clean_pass_unchanged<V: InputWidgetValue>(s: SceneState<V::V>, k: nat)
    requires
        k <= s.widgets.len(),
        forall|i: int| 0 <= i < s.widgets.len() ==> !(#[trigger] s.widgets[i]).dirty,
    ensures
        published_upto::<V>(s, k) == s,
        writes_upto::<V>(s, k) == 0,
    decreases k,
{
    if k > 0 {
        lemma_clean_pass_unchanged::<V>(s, (k - 1) as nat);
    }
}

} // verus!
