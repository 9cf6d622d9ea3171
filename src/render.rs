use vstd::prelude::*;
use crate::component::{
    components_view, lemma_components_view, Component, ComponentFields, ComponentView, FieldsView,
    StringComponent, TextView,
};
use crate::json::JsonView;
use crate::resolve::{resolve_doc, MAX_DEPTH};

verus! {

/// The display text of a component. Keybind, score and selector nodes cannot
/// be resolved without the game's state, so they show as the placeholders
/// `<keybind:NAME>`, `<score>` and `<selector>`; children always follow.
pub open spec fn rendered(c: ComponentView) -> Seq<char>
    decreases c,
{
    match c {
        ComponentView::Text(t) => rendered_text(t),
        ComponentView::Translation { key, with, fields } => "["@ + key + "]"@ + rendered_args(with)
            + rendered_extra(fields.extra),
        ComponentView::Keybind { keybind, fields } => "<keybind:"@ + keybind + ">"@ + rendered_extra(
            fields.extra,
        ),
        ComponentView::Score { fields, .. } => "<score>"@ + rendered_extra(fields.extra),
        ComponentView::Selector { fields, .. } => "<selector>"@ + rendered_extra(fields.extra),
    }
}

/// The display text of a text node: its text, then its children.
pub open spec fn rendered_text(t: TextView) -> Seq<char>
    decreases t,
{
    match t {
        TextView::Raw(s) => s,
        TextView::Mixed(s, fields) => s + rendered_extra(fields.extra),
    }
}

/// The children of a node, rendered one after another.
pub open spec fn rendered_extra(extra: Option<Seq<ComponentView>>) -> Seq<char>
    decreases extra,
{
    match extra {
        None => Seq::empty(),
        Some(children) => rendered_all(children),
    }
}

/// The concatenation of the rendered components, in order.
pub open spec fn rendered_all(cs: Seq<ComponentView>) -> Seq<char>
    decreases cs,
{
    if cs.len() == 0 {
        Seq::empty()
    } else {
        rendered_all(cs.drop_last()) + rendered(cs.last())
    }
}

/// The rendered components, in order, each after a single space.
pub open spec fn rendered_args(cs: Seq<ComponentView>) -> Seq<char>
    decreases cs,
{
    if cs.len() == 0 {
        Seq::empty()
    } else {
        rendered_args(cs.drop_last()) + " "@ + rendered(cs.last())
    }
}

/// Appends the rendered children of `fields` to `out`.
fn render_extra_into(fields: &ComponentFields, out: &mut String)
    ensures
        final(out)@ == old(out)@ + rendered_extra(fields.view().extra),
    decreases fields, 0nat,
{
    match &fields.extra {
        None => {
            assert(old(out)@ + Seq::<char>::empty() =~= old(out)@);
        },
        Some(children) => {
            let ghost start = out@;
            let ghost cv = components_view(children@);
            proof {
                lemma_components_view(children@);
                assert(cv.take(0) =~= Seq::<ComponentView>::empty());
                assert(start + Seq::<char>::empty() =~= start);
            }
            let mut i: usize = 0;
            while i < children.len()
                invariant
                    i <= children.len(),
                    fields.extra == Some(*children),
                    cv == components_view(children@),
                    cv.len() == children.len(),
                    forall|j: int| 0 <= j < children.len() ==> #[trigger] cv[j] == children@[j].view(),
                    out@ == start + rendered_all(cv.take(i as int)),
                decreases children.len() - i,
            {
                assert(cv.take(i + 1).drop_last() =~= cv.take(i as int));
                assert(cv.take(i + 1).last() == children@[i as int].view());
                proof {
                    assert(decreases_to!(*fields => fields.extra));
                    assert(decreases_to!(fields.extra => fields.extra->Some_0));
                    assert(decreases_to!(*children => children[i as int]));
                }
                children[i].render_into(out);
                i = i + 1;
            }
            assert(cv.take(children.len() as int) =~= cv);
        },
    }
}

impl StringComponent {
    /// Appends the display text of this text node to `out`.
    pub fn render_into(&self, out: &mut String)
        ensures
            final(out)@ == old(out)@ + rendered_text(self.view()),
        decreases self, 1nat,
    {
        match self {
            StringComponent::Raw(s) => out.append(s.as_str()),
            StringComponent::Mixed { text, fields } => {
                out.append(text.as_str());
                render_extra_into(fields, out);
            },
        }
    }
}

impl Component {
    /// Appends the display text of this component to `out`.
    pub fn render_into(&self, out: &mut String)
        ensures
            final(out)@ == old(out)@ + rendered(self.view()),
        decreases self, 2nat,
    {
        match self {
            Component::String(s) => s.render_into(out),
            Component::Translation(t) => {
                let ghost start = out@;
                out.append("[");
                out.append(t.translate.as_str());
                out.append("]");
                let ghost head = out@;
                let ghost cv = components_view(t.with@);
                proof {
                    lemma_components_view(t.with@);
                    assert(cv.take(0) =~= Seq::<ComponentView>::empty());
                    assert(head + Seq::<char>::empty() =~= head);
                }
                let mut i: usize = 0;
                while i < t.with.len()
                    invariant
                        i <= t.with.len(),
                        *self == Component::Translation(*t),
                        cv == components_view(t.with@),
                        cv.len() == t.with.len(),
                        forall|j: int| 0 <= j < t.with.len() ==> #[trigger] cv[j] == t.with@[j].view(),
                        out@ == head + rendered_args(cv.take(i as int)),
                    decreases t.with.len() - i,
                {
                    assert(cv.take(i + 1).drop_last() =~= cv.take(i as int));
                    assert(cv.take(i + 1).last() == t.with@[i as int].view());
                    proof {
                        assert(decreases_to!(*self => self->Translation_0));
                        assert(decreases_to!(*t => t.with));
                        assert(decreases_to!(t.with => t.with[i as int]));
                    }
                    out.append(" ");
                    t.with[i].render_into(out);
                    i = i + 1;
                }
                assert(cv.take(t.with.len() as int) =~= cv);
                render_extra_into(&t.fields, out);
                assert(out@ =~= start + rendered(self.view()));
            },
            Component::Keybind(k) => {
                let ghost start = out@;
                out.append("<keybind:");
                out.append(k.keybind.as_str());
                out.append(">");
                render_extra_into(&k.fields, out);
                assert(out@ =~= start + rendered(self.view()));
            },
            Component::Score(s) => {
                let ghost start = out@;
                out.append("<score>");
                render_extra_into(&s.fields, out);
                assert(out@ =~= start + rendered(self.view()));
            },
            Component::Selector(s) => {
                let ghost start = out@;
                out.append("<selector>");
                render_extra_into(&s.fields, out);
                assert(out@ =~= start + rendered(self.view()));
            },
        }
    }

    /// The display text of this component: text nodes give their text,
    /// translations their bracketed key and arguments, other nodes a
    /// placeholder, and every node is followed by its children in order.
    /// Styles and events play no part.
    pub fn render(&self) -> (r: String)
        ensures
            r@ == rendered(self.view()),
    {
        let mut out = String::new();
        self.render_into(&mut out);
        assert(out@ =~= rendered(self.view()));
        out
    }
}

impl StringComponent {
    /// The display text of this text node.
    pub fn render(&self) -> (r: String)
        ensures
            r@ == rendered_text(self.view()),
    {
        let mut out = String::new();
        self.render_into(&mut out);
        assert(out@ =~= rendered_text(self.view()));
        out
    }
}

/// A bare JSON string resolves to a raw text node with the same characters,
/// and that node renders as exactly those characters.
pub proof fn lemma_bare_string_round_trip(s: Seq<char>)
    ensures
        resolve_doc(JsonView::Str(s), MAX_DEPTH as nat) == Ok::<_, crate::resolve::ChatError>(
            ComponentView::Text(TextView::Raw(s)),
        ),
        rendered(ComponentView::Text(TextView::Raw(s))) == s,
{
}

/// Rendering depends on the tree alone: two components with the same tree
/// render to the same text.
pub proof fn lemma_render_depends_on_tree(a: Component, b: Component)
    requires
        a.view() == b.view(),
    ensures
        rendered(a.view()) == rendered(b.view()),
{
}

/// Rendering a sequence of siblings is rendering each, in stored order.
pub proof fn lemma_rendered_all_concat(xs: Seq<ComponentView>, ys: Seq<ComponentView>)
    ensures
        rendered_all(xs + ys) == rendered_all(xs) + rendered_all(ys),
    decreases ys.len(),
{
    if ys.len() == 0 {
        assert(xs + ys =~= xs);
        assert(rendered_all(xs) + Seq::<char>::empty() =~= rendered_all(xs));
    } else {
        lemma_rendered_all_concat(xs, ys.drop_last());
        assert((xs + ys).drop_last() =~= xs + ys.drop_last());
        assert((xs + ys).last() == ys.last());
        assert(rendered_all(xs) + rendered_all(ys) =~= rendered_all(xs) + rendered_all(ys.drop_last())
            + rendered(ys.last()));
    }
}

/// The children of a text node render after its own text, in stored order:
/// with children `a` then `b` the text is followed by `a`'s rendering and
/// then `b`'s, and with the two swapped, by `b`'s and then `a`'s.
pub proof fn lemma_children_in_order(text: Seq<char>, fields: FieldsView, a: ComponentView, b: ComponentView)
    ensures
        rendered_text(TextView::Mixed(text, FieldsView { extra: Some(seq![a, b]), ..fields })) == text
            + rendered(a) + rendered(b),
        rendered_text(TextView::Mixed(text, FieldsView { extra: Some(seq![b, a]), ..fields })) == text
            + rendered(b) + rendered(a),
{
    lemma_rendered_all_concat(seq![a], seq![b]);
    lemma_rendered_all_concat(seq![b], seq![a]);
    assert(seq![a] + seq![b] =~= seq![a, b]);
    assert(seq![b] + seq![a] =~= seq![b, a]);
    assert(seq![a].drop_last() =~= Seq::<ComponentView>::empty());
    assert(seq![b].drop_last() =~= Seq::<ComponentView>::empty());
    assert(rendered_all(Seq::<ComponentView>::empty()) == Seq::<char>::empty());
    assert(seq![a].last() == a);
    assert(seq![b].last() == b);
    assert(Seq::<char>::empty() + rendered(a) =~= rendered(a));
    assert(Seq::<char>::empty() + rendered(b) =~= rendered(b));
    assert(rendered_all(seq![a]) =~= rendered(a));
    assert(rendered_all(seq![b]) =~= rendered(b));
    assert(text + (rendered(a) + rendered(b)) =~= text + rendered(a) + rendered(b));
    assert(text + (rendered(b) + rendered(a)) =~= text + rendered(b) + rendered(a));
}

} // verus!
