use vstd::prelude::*;
use crate::json::{
    entries_view, items_view, json_of_text, lemma_items_view, lookup, lookup_entry, read_json, Json,
    JsonView,
};
use crate::component::{
    all_depth, components_view, depth, fields_depth, hover_depth, opt_string_view, text_depth,
    ClickEvent, ClickView, Component, ComponentFields, ComponentView, FieldsView, HoverEvent,
    HoverView, KeybindComponent, ScoreComponent, SelectorComponent, StringComponent, TextView,
    TranslationComponent,
};

verus! {

/// How many levels of components a resolved tree may span, counting the root
/// and each level of `extra`, `with` and hover-event nesting below it; a
/// deeper document fails with `DepthExceeded`.
pub const MAX_DEPTH: usize = 512;

/// Why a chat document could not be turned into a component tree.
#[derive(Debug, Clone, Copy, PartialEq, Eq, Structural)]
pub enum ChatError {
    /// The text is not JSON.
    SyntaxError,
    /// An object that has none of the keys that make a node.
    SchemaMismatch,
    /// A recognised key holds a value of the wrong type.
    TypeMismatch,
    /// Components nest more deeply than the bound allows.
    DepthExceeded,
}

/// The node kinds an object can be read as, in the order in which they are tried.
pub enum Shape {
    Text,
    Translation,
    Keybind,
    Score,
    Selector,
}

pub open spec fn has_str(obj: Seq<(Seq<char>, JsonView)>, key: Seq<char>) -> bool {
    lookup(obj, key) matches Some(JsonView::Str(_))
}

pub open spec fn has_key(obj: Seq<(Seq<char>, JsonView)>, key: Seq<char>) -> bool {
    lookup(obj, key) is Some
}

/// The first shape whose defining key is present with a value of the right type.
pub open spec fn shape_of(obj: Seq<(Seq<char>, JsonView)>) -> Option<Shape> {
    if has_str(obj, "text"@) {
        Some(Shape::Text)
    } else if has_str(obj, "translate"@) {
        Some(Shape::Translation)
    } else if has_str(obj, "keybind"@) {
        Some(Shape::Keybind)
    } else if has_key(obj, "score"@) {
        Some(Shape::Score)
    } else if has_key(obj, "selector"@) {
        Some(Shape::Selector)
    } else {
        None
    }
}

/// Some key that defines a shape is present, but with a value of the wrong type.
pub open spec fn shape_key_mistyped(obj: Seq<(Seq<char>, JsonView)>) -> bool {
    ||| has_key(obj, "text"@) && !has_str(obj, "text"@)
    ||| has_key(obj, "translate"@) && !has_str(obj, "translate"@)
    ||| has_key(obj, "keybind"@) && !has_str(obj, "keybind"@)
    ||| !with_ok(obj)
}

/// The `with` key is absent or holds an array.
pub open spec fn with_ok(obj: Seq<(Seq<char>, JsonView)>) -> bool {
    match lookup(obj, "with"@) {
        None => true,
        Some(JsonView::Array(_)) => true,
        _ => false,
    }
}

/// The string value under `key`, where `obj` has one.
pub open spec fn str_at(obj: Seq<(Seq<char>, JsonView)>, key: Seq<char>) -> Seq<char> {
    lookup(obj, key)->Some_0->Str_0
}

/// An optional boolean attribute: absent or null, or a boolean.
pub open spec fn flag_attr(obj: Seq<(Seq<char>, JsonView)>, key: Seq<char>) -> Result<Option<bool>, ChatError> {
    match lookup(obj, key) {
        None => Ok(None),
        Some(JsonView::Null) => Ok(None),
        Some(JsonView::Bool(b)) => Ok(Some(b)),
        _ => Err(ChatError::TypeMismatch),
    }
}

/// An optional string attribute: absent or null, or a string.
pub open spec fn string_attr(obj: Seq<(Seq<char>, JsonView)>, key: Seq<char>) -> Result<Option<Seq<char>>, ChatError> {
    match lookup(obj, key) {
        None => Ok(None),
        Some(JsonView::Null) => Ok(None),
        Some(JsonView::Str(s)) => Ok(Some(s)),
        _ => Err(ChatError::TypeMismatch),
    }
}

pub open spec fn is_digit(c: char) -> bool {
    '0' <= c && c <= '9'
}

/// A non-empty run of decimal digits.
pub open spec fn is_decimal(t: Seq<char>) -> bool {
    t.len() > 0 && forall|i: int| 0 <= i < t.len() ==> is_digit(#[trigger] t[i])
}

/// The value of a run of decimal digits.
pub open spec fn decimal_value(t: Seq<char>) -> nat
    decreases t.len(),
{
    if t.len() == 0 {
        0
    } else {
        decimal_value(t.drop_last()) * 10 + (t.last() as nat - '0' as nat) as nat
    }
}

/// The click event that an event object describes, if it describes one.
pub open spec fn click_of(ev: Seq<(Seq<char>, JsonView)>) -> Option<ClickView> {
    match (lookup(ev, "action"@), lookup(ev, "value"@)) {
        (Some(JsonView::Str(a)), Some(JsonView::Str(v))) => {
            if a == "open_url"@ {
                Some(ClickView::OpenUrl(v))
            } else if a == "open_file"@ {
                Some(ClickView::OpenFile(v))
            } else if a == "run_command"@ {
                Some(ClickView::RunCommand(v))
            } else if a == "twitch_user_info"@ {
                Some(ClickView::TwitchUserInfo(v))
            } else if a == "suggest_command"@ {
                Some(ClickView::SuggestCommand(v))
            } else {
                None
            }
        },
        (Some(JsonView::Str(a)), Some(JsonView::Number(t))) => {
            if a == "change_page"@ && is_decimal(t) && decimal_value(t) <= usize::MAX {
                Some(ClickView::ChangePage(decimal_value(t)))
            } else {
                None
            }
        },
        _ => None,
    }
}

/// The optional `clickEvent` attribute.
pub open spec fn click_attr(obj: Seq<(Seq<char>, JsonView)>) -> Result<Option<ClickView>, ChatError> {
    match lookup(obj, "clickEvent"@) {
        None => Ok(None),
        Some(JsonView::Null) => Ok(None),
        Some(JsonView::Object(ev)) => match click_of(ev) {
            Some(c) => Ok(Some(c)),
            None => Err(ChatError::TypeMismatch),
        },
        _ => Err(ChatError::TypeMismatch),
    }
}

/// The attributes that hold no nested component are all well typed.
pub open spec fn plain_attrs_ok(obj: Seq<(Seq<char>, JsonView)>) -> bool {
    &&& flag_attr(obj, "bold"@) is Ok
    &&& flag_attr(obj, "italic"@) is Ok
    &&& flag_attr(obj, "underlined"@) is Ok
    &&& flag_attr(obj, "strikethrough"@) is Ok
    &&& flag_attr(obj, "obfuscated"@) is Ok
    &&& string_attr(obj, "color"@) is Ok
    &&& string_attr(obj, "insertion"@) is Ok
    &&& click_attr(obj) is Ok
}

/// Resolves a document into a component, with `budget` levels of nesting left.
pub open spec fn resolve_doc(d: JsonView, budget: nat) -> Result<ComponentView, ChatError>
    decreases budget, 0nat, 0nat,
{
    if budget == 0 {
        Err(ChatError::DepthExceeded)
    } else {
        match d {
            JsonView::Str(s) => Ok(ComponentView::Text(TextView::Raw(s))),
            JsonView::Object(obj) => match shape_of(obj) {
                None => if shape_key_mistyped(obj) {
                    Err(ChatError::TypeMismatch)
                } else {
                    Err(ChatError::SchemaMismatch)
                },
                Some(Shape::Translation) if !with_ok(obj) => Err(ChatError::TypeMismatch),
                Some(shape) => match resolve_fields(obj, (budget - 1) as nat) {
                    Err(e) => Err(e),
                    Ok(fields) => match shape {
                        Shape::Text => Ok(ComponentView::Text(TextView::Mixed(str_at(obj, "text"@), fields))),
                        Shape::Translation => match lookup(obj, "with"@) {
                            None => Ok(ComponentView::Translation {
                                key: str_at(obj, "translate"@),
                                with: Seq::empty(),
                                fields,
                            }),
                            Some(JsonView::Array(args)) => match resolve_items(args, (budget - 1) as nat) {
                                Err(e) => Err(e),
                                Ok(with) => Ok(ComponentView::Translation {
                                    key: str_at(obj, "translate"@),
                                    with,
                                    fields,
                                }),
                            },
                            _ => Err(ChatError::TypeMismatch),
                        },
                        Shape::Keybind => Ok(ComponentView::Keybind { keybind: str_at(obj, "keybind"@), fields }),
                        Shape::Score => Ok(ComponentView::Score { score: lookup(obj, "score"@)->Some_0, fields }),
                        Shape::Selector => Ok(ComponentView::Selector {
                            selector: lookup(obj, "selector"@)->Some_0,
                            fields,
                        }),
                    },
                },
            },
            _ => Err(ChatError::SchemaMismatch),
        }
    }
}

/// Resolves a document that must be a text node (the value of a hover event).
pub open spec fn resolve_text(d: JsonView, budget: nat) -> Result<TextView, ChatError>
    decreases budget, 0nat, 0nat,
{
    if budget == 0 {
        Err(ChatError::DepthExceeded)
    } else {
        match d {
            JsonView::Str(s) => Ok(TextView::Raw(s)),
            JsonView::Object(obj) => if has_str(obj, "text"@) {
                match resolve_fields(obj, (budget - 1) as nat) {
                    Err(e) => Err(e),
                    Ok(fields) => Ok(TextView::Mixed(str_at(obj, "text"@), fields)),
                }
            } else {
                Err(ChatError::TypeMismatch)
            },
            _ => Err(ChatError::TypeMismatch),
        }
    }
}

/// Resolves each document of a sequence, in order; the first failure is the result.
pub open spec fn resolve_items(items: Seq<JsonView>, budget: nat) -> Result<Seq<ComponentView>, ChatError>
    decreases budget, 1nat, items.len(),
{
    if items.len() == 0 {
        Ok(Seq::empty())
    } else {
        match resolve_items(items.drop_last(), budget) {
            Err(e) => Err(e),
            Ok(done) => match resolve_doc(items.last(), budget) {
                Err(e) => Err(e),
                Ok(c) => Ok(done.push(c)),
            },
        }
    }
}

/// The hover event that an event object describes.
pub open spec fn hover_of(ev: Seq<(Seq<char>, JsonView)>, budget: nat) -> Result<HoverView, ChatError>
    decreases budget, 2nat, 0nat,
{
    match (lookup(ev, "action"@), lookup(ev, "value"@)) {
        (Some(JsonView::Str(a)), Some(v)) => {
            if a == "show_text"@ || a == "show_item"@ || a == "show_entity"@ || a == "show_achievement"@ {
                match resolve_text(v, budget) {
                    Err(e) => Err(e),
                    Ok(t) => Ok(
                        if a == "show_text"@ {
                            HoverView::ShowText(Box::new(t))
                        } else if a == "show_item"@ {
                            HoverView::ShowItem(Box::new(t))
                        } else if a == "show_entity"@ {
                            HoverView::ShowEntity(Box::new(t))
                        } else {
                            HoverView::ShowAchievement(Box::new(t))
                        },
                    ),
                }
            } else {
                Err(ChatError::TypeMismatch)
            }
        },
        _ => Err(ChatError::TypeMismatch),
    }
}

/// The optional `hoverEvent` attribute.
pub open spec fn hover_attr(obj: Seq<(Seq<char>, JsonView)>, budget: nat) -> Result<Option<HoverView>, ChatError>
    decreases budget, 3nat, 0nat,
{
    match lookup(obj, "hoverEvent"@) {
        None => Ok(None),
        Some(JsonView::Null) => Ok(None),
        Some(JsonView::Object(ev)) => match hover_of(ev, budget) {
            Err(e) => Err(e),
            Ok(h) => Ok(Some(h)),
        },
        _ => Err(ChatError::TypeMismatch),
    }
}

/// The optional `extra` attribute: the node's children.
pub open spec fn extra_attr(obj: Seq<(Seq<char>, JsonView)>, budget: nat) -> Result<Option<Seq<ComponentView>>, ChatError>
    decreases budget, 3nat, 0nat,
{
    match lookup(obj, "extra"@) {
        None => Ok(None),
        Some(JsonView::Null) => Ok(None),
        Some(JsonView::Array(items)) => match resolve_items(items, budget) {
            Err(e) => Err(e),
            Ok(children) => Ok(Some(children)),
        },
        _ => Err(ChatError::TypeMismatch),
    }
}

/// Reads the attributes of a node; nested components get `budget` levels.
/// The plain attributes are checked first, then the hover event, then the children.
pub open spec fn resolve_fields(obj: Seq<(Seq<char>, JsonView)>, budget: nat) -> Result<FieldsView, ChatError>
    decreases budget, 4nat, 0nat,
{
    if !plain_attrs_ok(obj) {
        Err(ChatError::TypeMismatch)
    } else {
        match hover_attr(obj, budget) {
            Err(e) => Err(e),
            Ok(hover_event) => match extra_attr(obj, budget) {
                Err(e) => Err(e),
                Ok(extra) => Ok(FieldsView {
                    bold: flag_attr(obj, "bold"@)->Ok_0,
                    italic: flag_attr(obj, "italic"@)->Ok_0,
                    underlined: flag_attr(obj, "underlined"@)->Ok_0,
                    strikethrough: flag_attr(obj, "strikethrough"@)->Ok_0,
                    obfuscated: flag_attr(obj, "obfuscated"@)->Ok_0,
                    color: string_attr(obj, "color"@)->Ok_0,
                    insertion: string_attr(obj, "insertion"@)->Ok_0,
                    click_event: click_attr(obj)->Ok_0,
                    hover_event,
                    extra,
                }),
            },
        }
    }
}

/// Whether `s` is the word `w`.
fn is_word(s: &String, w: &str) -> (r: bool)
    ensures
        r == (s@ == w@),
{
    let t = w.to_owned();
    *s == t
}

pub proof fn lemma_decimal_prefix(t: Seq<char>, k: int)
    requires
        0 <= k <= t.len(),
    ensures
        decimal_value(t.take(k)) <= decimal_value(t),
    decreases t.len(),
{
    if k == t.len() {
        assert(t.take(k) =~= t);
    } else {
        lemma_decimal_prefix(t.drop_last(), k);
        assert(t.drop_last().take(k) =~= t.take(k));
    }
}

/// Reads a run of decimal digits as a `usize`; `None` where `t` is not such a
/// run or its value does not fit.
fn decimal_usize(t: &String) -> (r: Option<usize>)
    ensures
        match r {
            Some(n) => is_decimal(t@) && decimal_value(t@) == n,
            None => !(is_decimal(t@) && decimal_value(t@) <= usize::MAX),
        },
{
    let s = t.as_str();
    let len = s.unicode_len();
    if len == 0 {
        return None;
    }
    let mut acc: usize = 0;
    let mut i: usize = 0;
    while i < len
        invariant
            len == t@.len(),
            s@ == t@,
            i <= len,
            forall|j: int| 0 <= j < i ==> is_digit(#[trigger] t@[j]),
            acc == decimal_value(t@.take(i as int)),
        decreases len - i,
    {
        let c = s.get_char(i);
        if !('0' <= c && c <= '9') {
            return None;
        }
        let d = (c as u32 - '0' as u32) as usize;
        assert(t@.take(i + 1).drop_last() =~= t@.take(i as int));
        if acc > (usize::MAX - d) / 10 {
            proof {
                lemma_decimal_prefix(t@, i + 1);
            }
            return None;
        }
        acc = acc * 10 + d;
        i = i + 1;
    }
    assert(t@.take(len as int) =~= t@);
    Some(acc)
}

/// The click event that an event object describes, if it describes one.
fn click_event_of(ev: &Vec<(String, Json)>) -> (r: Option<ClickEvent>)
    ensures
        match r {
            Some(c) => click_of(entries_view(ev@)) == Some(c.view()),
            None => click_of(entries_view(ev@)) is None,
        },
{
    match (lookup_entry(ev, "action"), lookup_entry(ev, "value")) {
        (Some(Json::Str(a)), Some(Json::Str(v))) => {
            if is_word(a, "open_url") {
                Some(ClickEvent::OpenUrl(v.clone()))
            } else if is_word(a, "open_file") {
                Some(ClickEvent::OpenFile(v.clone()))
            } else if is_word(a, "run_command") {
                Some(ClickEvent::RunCommand(v.clone()))
            } else if is_word(a, "twitch_user_info") {
                Some(ClickEvent::TwitchUserInfo(v.clone()))
            } else if is_word(a, "suggest_command") {
                Some(ClickEvent::SuggestCommand(v.clone()))
            } else {
                None
            }
        },
        (Some(Json::Str(a)), Some(Json::Number(t))) => {
            if is_word(a, "change_page") {
                match decimal_usize(t) {
                    Some(n) => Some(ClickEvent::ChangePage(n)),
                    None => None,
                }
            } else {
                None
            }
        },
        _ => None,
    }
}

fn read_flag(obj: &Vec<(String, Json)>, key: &str) -> (r: Result<Option<bool>, ChatError>)
    ensures
        r == flag_attr(entries_view(obj@), key@),
{
    match lookup_entry(obj, key) {
        None => Ok(None),
        Some(Json::Null) => Ok(None),
        Some(Json::Bool(b)) => Ok(Some(*b)),
        _ => Err(ChatError::TypeMismatch),
    }
}

fn read_string(obj: &Vec<(String, Json)>, key: &str) -> (r: Result<Option<String>, ChatError>)
    ensures
        match r {
            Ok(s) => string_attr(entries_view(obj@), key@) == Ok::<_, ChatError>(opt_string_view(s)),
            Err(e) => string_attr(entries_view(obj@), key@) == Err::<Option<Seq<char>>, _>(e),
        },
{
    match lookup_entry(obj, key) {
        None => Ok(None),
        Some(Json::Null) => Ok(None),
        Some(Json::Str(s)) => Ok(Some(s.clone())),
        _ => Err(ChatError::TypeMismatch),
    }
}

fn read_click(obj: &Vec<(String, Json)>) -> (r: Result<Option<ClickEvent>, ChatError>)
    ensures
        match r {
            Ok(Some(c)) => click_attr(entries_view(obj@)) == Ok::<_, ChatError>(Some(c.view())),
            Ok(None) => click_attr(entries_view(obj@)) == Ok::<Option<ClickView>, ChatError>(None),
            Err(e) => click_attr(entries_view(obj@)) == Err::<Option<ClickView>, _>(e),
        },
{
    match lookup_entry(obj, "clickEvent") {
        None => Ok(None),
        Some(Json::Null) => Ok(None),
        Some(Json::Object(ev)) => match click_event_of(ev) {
            Some(c) => Ok(Some(c)),
            None => Err(ChatError::TypeMismatch),
        },
        _ => Err(ChatError::TypeMismatch),
    }
}

/// Once a prefix of a sequence fails to resolve, the whole sequence fails the same way.
pub proof fn lemma_items_prefix_err(items: Seq<JsonView>, k: int, budget: nat)
    requires
        0 <= k <= items.len(),
        resolve_items(items.take(k), budget) is Err,
    ensures
        resolve_items(items, budget) == resolve_items(items.take(k), budget),
    decreases items.len(),
{
    if k == items.len() {
        assert(items.take(k) =~= items);
    } else {
        assert(items.drop_last().take(k) =~= items.take(k));
        lemma_items_prefix_err(items.drop_last(), k, budget);
    }
}

/// Resolves each document of `items` in order.
fn read_items(items: &Vec<Json>, budget: usize) -> (r: Result<Vec<Component>, ChatError>)
    ensures
        match r {
            Ok(cs) => resolve_items(items_view(items@), budget as nat) == Ok::<_, ChatError>(components_view(cs@)),
            Err(e) => resolve_items(items_view(items@), budget as nat) == Err::<Seq<ComponentView>, _>(e),
        },
    decreases budget, 1nat, items@.len(),
{
    let ghost iv = items_view(items@);
    proof {
        lemma_items_view(items@);
        assert(iv.take(0) =~= Seq::<JsonView>::empty());
    }
    let mut out: Vec<Component> = Vec::new();
    let mut i: usize = 0;
    while i < items.len()
        invariant
            i <= items.len(),
            iv == items_view(items@),
            iv.len() == items.len(),
            forall|j: int| 0 <= j < items.len() ==> #[trigger] iv[j] == items@[j].view(),
            resolve_items(iv.take(i as int), budget as nat) == Ok::<_, ChatError>(components_view(out@)),
        decreases items.len() - i,
    {
        assert(iv.take(i + 1).drop_last() =~= iv.take(i as int));
        assert(iv.take(i + 1).last() == items@[i as int].view());
        match resolve_with_limit(&items[i], budget) {
            Err(e) => {
                proof {
                    lemma_items_prefix_err(iv, i + 1, budget as nat);
                }
                return Err(e);
            },
            Ok(c) => {
                let ghost before = out@;
                out.push(c);
                assert(out@.drop_last() =~= before);
            },
        }
        i = i + 1;
    }
    assert(iv.take(items.len() as int) =~= iv);
    Ok(out)
}

/// Resolves the value of a hover event, which must be a text node.
fn read_text(d: &Json, budget: usize) -> (r: Result<StringComponent, ChatError>)
    ensures
        match r {
            Ok(t) => resolve_text(d.view(), budget as nat) == Ok::<_, ChatError>(t.view()),
            Err(e) => resolve_text(d.view(), budget as nat) == Err::<TextView, _>(e),
        },
    decreases budget, 0nat, 0nat,
{
    if budget == 0 {
        return Err(ChatError::DepthExceeded);
    }
    match d {
        Json::Str(s) => Ok(StringComponent::Raw(s.clone())),
        Json::Object(obj) => match lookup_entry(obj, "text") {
            Some(Json::Str(text)) => match read_fields(obj, budget - 1) {
                Err(e) => Err(e),
                Ok(fields) => Ok(StringComponent::Mixed { text: text.clone(), fields }),
            },
            _ => Err(ChatError::TypeMismatch),
        },
        _ => Err(ChatError::TypeMismatch),
    }
}

/// The hover event that an event object describes.
fn read_hover_event(ev: &Vec<(String, Json)>, budget: usize) -> (r: Result<HoverEvent, ChatError>)
    ensures
        match r {
            Ok(h) => hover_of(entries_view(ev@), budget as nat) == Ok::<_, ChatError>(h.view()),
            Err(e) => hover_of(entries_view(ev@), budget as nat) == Err::<HoverView, _>(e),
        },
    decreases budget, 2nat, 0nat,
{
    match (lookup_entry(ev, "action"), lookup_entry(ev, "value")) {
        (Some(Json::Str(a)), Some(v)) => {
            let kind: u8 = if is_word(a, "show_text") {
                0
            } else if is_word(a, "show_item") {
                1
            } else if is_word(a, "show_entity") {
                2
            } else if is_word(a, "show_achievement") {
                3
            } else {
                return Err(ChatError::TypeMismatch);
            };
            match read_text(v, budget) {
                Err(e) => Err(e),
                Ok(t) => Ok(
                    if kind == 0 {
                        HoverEvent::ShowText(Box::new(t))
                    } else if kind == 1 {
                        HoverEvent::ShowItem(Box::new(t))
                    } else if kind == 2 {
                        HoverEvent::ShowEntity(Box::new(t))
                    } else {
                        HoverEvent::ShowAchievement(Box::new(t))
                    },
                ),
            }
        },
        _ => Err(ChatError::TypeMismatch),
    }
}

fn read_hover(obj: &Vec<(String, Json)>, budget: usize) -> (r: Result<Option<HoverEvent>, ChatError>)
    ensures
        match r {
            Ok(Some(h)) => hover_attr(entries_view(obj@), budget as nat) == Ok::<_, ChatError>(Some(h.view())),
            Ok(None) => hover_attr(entries_view(obj@), budget as nat) == Ok::<Option<HoverView>, ChatError>(None),
            Err(e) => hover_attr(entries_view(obj@), budget as nat) == Err::<Option<HoverView>, _>(e),
        },
    decreases budget, 3nat, 0nat,
{
    match lookup_entry(obj, "hoverEvent") {
        None => Ok(None),
        Some(Json::Null) => Ok(None),
        Some(Json::Object(ev)) => match read_hover_event(ev, budget) {
            Err(e) => Err(e),
            Ok(h) => Ok(Some(h)),
        },
        _ => Err(ChatError::TypeMismatch),
    }
}

fn read_extra(obj: &Vec<(String, Json)>, budget: usize) -> (r: Result<Option<Vec<Component>>, ChatError>)
    ensures
        match r {
            Ok(Some(cs)) => extra_attr(entries_view(obj@), budget as nat) == Ok::<_, ChatError>(Some(components_view(cs@))),
            Ok(None) => extra_attr(entries_view(obj@), budget as nat) == Ok::<Option<Seq<ComponentView>>, ChatError>(None),
            Err(e) => extra_attr(entries_view(obj@), budget as nat) == Err::<Option<Seq<ComponentView>>, _>(e),
        },
    decreases budget, 3nat, 0nat,
{
    match lookup_entry(obj, "extra") {
        None => Ok(None),
        Some(Json::Null) => Ok(None),
        Some(Json::Array(items)) => match read_items(items, budget) {
            Err(e) => Err(e),
            Ok(cs) => Ok(Some(cs)),
        },
        _ => Err(ChatError::TypeMismatch),
    }
}

/// Reads the attributes of a node.
fn read_fields(obj: &Vec<(String, Json)>, budget: usize) -> (r: Result<ComponentFields, ChatError>)
    ensures
        match r {
            Ok(f) => resolve_fields(entries_view(obj@), budget as nat) == Ok::<_, ChatError>(f.view()),
            Err(e) => resolve_fields(entries_view(obj@), budget as nat) == Err::<FieldsView, _>(e),
        },
    decreases budget, 4nat, 0nat,
{
    let bold = read_flag(obj, "bold");
    let italic = read_flag(obj, "italic");
    let underlined = read_flag(obj, "underlined");
    let strikethrough = read_flag(obj, "strikethrough");
    let obfuscated = read_flag(obj, "obfuscated");
    let color = read_string(obj, "color");
    let insertion = read_string(obj, "insertion");
    let click_event = read_click(obj);
    match (bold, italic, underlined, strikethrough, obfuscated, color, insertion, click_event) {
        (Ok(bold), Ok(italic), Ok(underlined), Ok(strikethrough), Ok(obfuscated), Ok(color), Ok(insertion), Ok(click_event)) => {
            let hover_event = match read_hover(obj, budget) {
                Err(e) => return Err(e),
                Ok(h) => h,
            };
            let extra = match read_extra(obj, budget) {
                Err(e) => return Err(e),
                Ok(x) => x,
            };
            Ok(ComponentFields {
                bold,
                italic,
                underlined,
                strikethrough,
                obfuscated,
                color,
                insertion,
                click_event,
                hover_event,
                extra,
            })
        },
        _ => Err(ChatError::TypeMismatch),
    }
}

/// Resolves a document into a component, with `budget` levels of nesting left.
pub fn resolve_with_limit(d: &Json, budget: usize) -> (r: Result<Component, ChatError>)
    ensures
        match r {
            Ok(c) => resolve_doc(d.view(), budget as nat) == Ok::<_, ChatError>(c.view()),
            Err(e) => resolve_doc(d.view(), budget as nat) == Err::<ComponentView, _>(e),
        },
    decreases budget, 0nat, 0nat,
{
    if budget == 0 {
        return Err(ChatError::DepthExceeded);
    }
    let obj = match d {
        Json::Str(s) => {
            return Ok(Component::String(StringComponent::Raw(s.clone())));
        },
        Json::Object(obj) => obj,
        _ => {
            return Err(ChatError::SchemaMismatch);
        },
    };
    let text = lookup_entry(obj, "text");
    let translate = lookup_entry(obj, "translate");
    let keybind = lookup_entry(obj, "keybind");
    let score = lookup_entry(obj, "score");
    let selector = lookup_entry(obj, "selector");
    let shaped = text matches Some(Json::Str(_)) || translate matches Some(Json::Str(_))
        || keybind matches Some(Json::Str(_)) || score.is_some() || selector.is_some();
    if !shaped {
        let with_ok = match lookup_entry(obj, "with") {
            None => true,
            Some(Json::Array(_)) => true,
            _ => false,
        };
        if text.is_some() || translate.is_some() || keybind.is_some() || !with_ok {
            return Err(ChatError::TypeMismatch);
        }
        return Err(ChatError::SchemaMismatch);
    }
    if !(text matches Some(Json::Str(_))) && translate matches Some(Json::Str(_)) {
        match lookup_entry(obj, "with") {
            None => {},
            Some(Json::Array(_)) => {},
            _ => {
                return Err(ChatError::TypeMismatch);
            },
        }
    }
    let fields = match read_fields(obj, budget - 1) {
        Err(e) => {
            return Err(e);
        },
        Ok(f) => f,
    };
    if let Some(Json::Str(t)) = text {
        return Ok(Component::String(StringComponent::Mixed { text: t.clone(), fields }));
    }
    if let Some(Json::Str(key)) = translate {
        let with = match lookup_entry(obj, "with") {
            None => Vec::new(),
            Some(Json::Array(args)) => match read_items(args, budget - 1) {
                Err(e) => {
                    return Err(e);
                },
                Ok(cs) => cs,
            },
            _ => {
                return Err(ChatError::TypeMismatch);
            },
        };
        return Ok(Component::Translation(TranslationComponent { translate: key.clone(), with, fields }));
    }
    if let Some(Json::Str(k)) = keybind {
        return Ok(Component::Keybind(KeybindComponent { keybind: k.clone(), fields }));
    }
    if let Some(v) = score {
        return Ok(Component::Score(ScoreComponent { score: v.duplicate(), fields }));
    }
    match selector {
        Some(v) => Ok(Component::Selector(SelectorComponent { selector: v.duplicate(), fields })),
        None => Err(ChatError::SchemaMismatch),
    }
}

/// Resolves a document into a component, allowing `MAX_DEPTH` levels of nesting.
pub fn resolve(doc: &Json) -> (r: Result<Component, ChatError>)
    ensures
        match r {
            Ok(c) => resolve_doc(doc.view(), MAX_DEPTH as nat) == Ok::<_, ChatError>(c.view()),
            Err(e) => resolve_doc(doc.view(), MAX_DEPTH as nat) == Err::<ComponentView, _>(e),
        },
{
    resolve_with_limit(doc, MAX_DEPTH)
}

/// Resolves a document that must be a text node, allowing `MAX_DEPTH` levels of nesting.
pub fn resolve_string(doc: &Json) -> (r: Result<StringComponent, ChatError>)
    ensures
        match r {
            Ok(t) => resolve_text(doc.view(), MAX_DEPTH as nat) == Ok::<_, ChatError>(t.view()),
            Err(e) => resolve_text(doc.view(), MAX_DEPTH as nat) == Err::<TextView, _>(e),
        },
{
    read_text(doc, MAX_DEPTH)
}

/// Reads a chat message from its JSON text: `SyntaxError` where the text is
/// not JSON, else the resolution of the document.
pub fn parse_component(text: &str) -> (r: Result<Component, ChatError>)
    ensures
        match json_of_text(text@) {
            None => r == Err::<Component, _>(ChatError::SyntaxError),
            Some(d) => match r {
                Ok(c) => resolve_doc(d, MAX_DEPTH as nat) == Ok::<_, ChatError>(c.view()),
                Err(e) => resolve_doc(d, MAX_DEPTH as nat) == Err::<ComponentView, _>(e),
            },
        },
{
    match read_json(text) {
        Err(_) => Err(ChatError::SyntaxError),
        Ok(d) => resolve(&d),
    }
}

/// Reads a text node from its JSON text: `SyntaxError` where the text is not
/// JSON, else the resolution of the document as a text node.
pub fn parse_string_component(text: &str) -> (r: Result<StringComponent, ChatError>)
    ensures
        match json_of_text(text@) {
            None => r == Err::<StringComponent, _>(ChatError::SyntaxError),
            Some(d) => match r {
                Ok(t) => resolve_text(d, MAX_DEPTH as nat) == Ok::<_, ChatError>(t.view()),
                Err(e) => resolve_text(d, MAX_DEPTH as nat) == Err::<TextView, _>(e),
            },
        },
{
    match read_json(text) {
        Err(_) => Err(ChatError::SyntaxError),
        Ok(d) => resolve_string(&d),
    }
}

/// An object whose `text` key holds a string is a text node, whatever else it
/// holds: in particular a `translate` key beside it never makes it a translation.
pub proof fn lemma_text_before_translate(obj: Seq<(Seq<char>, JsonView)>, budget: nat)
    requires
        budget > 0,
        has_str(obj, "text"@),
    ensures
        resolve_doc(JsonView::Object(obj), budget) == match resolve_fields(obj, (budget - 1) as nat) {
            Ok(fields) => Ok::<_, ChatError>(ComponentView::Text(TextView::Mixed(str_at(obj, "text"@), fields))),
            Err(e) => Err(e),
        },
        !(resolve_doc(JsonView::Object(obj), budget) matches Ok(ComponentView::Translation { .. })),
{
}

/// An object whose `with` key holds anything but an array fails with
/// `TypeMismatch`, unless a text, keybind, score or selector key makes it
/// another kind of node.
pub proof fn lemma_with_not_array(obj: Seq<(Seq<char>, JsonView)>, budget: nat)
    requires
        budget > 0,
        !with_ok(obj),
        !has_str(obj, "text"@),
        !has_str(obj, "keybind"@),
        !has_key(obj, "score"@),
        !has_key(obj, "selector"@),
    ensures
        resolve_doc(JsonView::Object(obj), budget) == Err::<ComponentView, _>(ChatError::TypeMismatch),
{
}

/// An object with none of the keys that make or shape a node fails with
/// `SchemaMismatch`; the empty object is one.
pub proof fn lemma_no_node_keys(obj: Seq<(Seq<char>, JsonView)>, budget: nat)
    requires
        budget > 0,
        !has_key(obj, "text"@),
        !has_key(obj, "translate"@),
        !has_key(obj, "with"@),
        !has_key(obj, "keybind"@),
        !has_key(obj, "score"@),
        !has_key(obj, "selector"@),
    ensures
        resolve_doc(JsonView::Object(obj), budget) == Err::<ComponentView, _>(ChatError::SchemaMismatch),
        resolve_doc(JsonView::Object(Seq::empty()), budget) == Err::<ComponentView, _>(ChatError::SchemaMismatch),
{
}

proof fn lemma_lookup_pair(a: (Seq<char>, JsonView), b: (Seq<char>, JsonView), key: Seq<char>)
    ensures
        lookup(seq![a, b], key) == if a.0 == key {
            Some(a.1)
        } else if b.0 == key {
            Some(b.1)
        } else {
            None
        },
{
    let s = seq![a, b];
    assert(s.skip(1) =~= seq![b]);
    assert(s.skip(1).skip(1) =~= Seq::<(Seq<char>, JsonView)>::empty());
    assert(lookup(s.skip(1).skip(1), key) is None);
    assert(s[0] == a);
    assert(s.skip(1)[0] == b);
    assert(lookup(s.skip(1), key) == if b.0 == key {
        Some(b.1)
    } else {
        lookup(s.skip(1).skip(1), key)
    });
}

/// A chain of `n` text nodes, each the only child (`extra`) of the one before,
/// ending in a bare string.
pub open spec fn extra_chain(n: nat) -> JsonView
    decreases n,
{
    if n == 0 {
        JsonView::Str(Seq::empty())
    } else {
        JsonView::Object(
            seq![
                ("text"@, JsonView::Str(Seq::empty())),
                ("extra"@, JsonView::Array(seq![extra_chain((n - 1) as nat)])),
            ],
        )
    }
}

/// A chain of `n + 1` nested nodes resolves within a bound of more than `n`
/// levels, and fails with `DepthExceeded` under any smaller bound.
pub proof fn lemma_depth_bound(n: nat, budget: nat)
    ensures
        n >= budget ==> resolve_doc(extra_chain(n), budget) == Err::<ComponentView, _>(ChatError::DepthExceeded),
        n < budget ==> resolve_doc(extra_chain(n), budget) is Ok,
    decreases n,
{
    reveal_strlit("text");
    reveal_strlit("extra");
    reveal_strlit("bold");
    reveal_strlit("italic");
    reveal_strlit("underlined");
    reveal_strlit("strikethrough");
    reveal_strlit("obfuscated");
    reveal_strlit("color");
    reveal_strlit("insertion");
    reveal_strlit("clickEvent");
    reveal_strlit("hoverEvent");
    if n > 0 && budget > 0 {
        lemma_depth_bound((n - 1) as nat, (budget - 1) as nat);
        let obj = extra_chain(n)->Object_0;
        let child = extra_chain((n - 1) as nat);
        let items = seq![child];
        assert(items.drop_last() =~= Seq::<JsonView>::empty());
        assert("text"@.len() == 4 && "text"@[0] == 't');
        assert("extra"@.len() == 5 && "extra"@[0] == 'e');
        assert("bold"@.len() == 4 && "bold"@[0] == 'b');
        assert("italic"@.len() == 6 && "italic"@[0] == 'i');
        assert("underlined"@.len() == 10 && "underlined"@[0] == 'u');
        assert("strikethrough"@.len() == 13 && "strikethrough"@[0] == 's');
        assert("obfuscated"@.len() == 10 && "obfuscated"@[0] == 'o');
        assert("color"@.len() == 5 && "color"@[0] == 'c');
        assert("insertion"@.len() == 9 && "insertion"@[0] == 'i');
        assert("clickEvent"@.len() == 10 && "clickEvent"@[0] == 'c');
        assert("hoverEvent"@.len() == 10 && "hoverEvent"@[0] == 'h');
        let text_entry = ("text"@, JsonView::Str(Seq::empty()));
        let extra_entry = ("extra"@, JsonView::Array(items));
        assert(obj == seq![text_entry, extra_entry]);
        lemma_lookup_pair(text_entry, extra_entry, "text"@);
        lemma_lookup_pair(text_entry, extra_entry, "extra"@);
        lemma_lookup_pair(text_entry, extra_entry, "hoverEvent"@);
        lemma_lookup_pair(text_entry, extra_entry, "bold"@);
        lemma_lookup_pair(text_entry, extra_entry, "italic"@);
        lemma_lookup_pair(text_entry, extra_entry, "underlined"@);
        lemma_lookup_pair(text_entry, extra_entry, "strikethrough"@);
        lemma_lookup_pair(text_entry, extra_entry, "obfuscated"@);
        lemma_lookup_pair(text_entry, extra_entry, "color"@);
        lemma_lookup_pair(text_entry, extra_entry, "insertion"@);
        lemma_lookup_pair(text_entry, extra_entry, "clickEvent"@);
        assert(plain_attrs_ok(obj));
        let b = (budget - 1) as nat;
        assert(items.last() == child);
        assert(resolve_items(Seq::<JsonView>::empty(), b) == Ok::<_, ChatError>(Seq::<ComponentView>::empty()));
        assert(hover_attr(obj, b) == Ok::<Option<HoverView>, ChatError>(None));
        if n - 1 >= b {
            assert(resolve_items(items, b) == Err::<Seq<ComponentView>, _>(ChatError::DepthExceeded));
            assert(extra_attr(obj, b) == Err::<Option<Seq<ComponentView>>, _>(ChatError::DepthExceeded));
            assert(resolve_fields(obj, b) == Err::<FieldsView, _>(ChatError::DepthExceeded));
        } else {
            assert(resolve_items(items, b) is Ok);
            assert(extra_attr(obj, b) is Ok);
            assert(resolve_fields(obj, b) is Ok);
        }
    }
}

proof fn lemma_items_depth(items: Seq<JsonView>, budget: nat)
    ensures
        resolve_items(items, budget) is Ok ==> all_depth(resolve_items(items, budget)->Ok_0) <= budget,
    decreases budget, 1nat, items.len(),
{
    if items.len() > 0 {
        lemma_items_depth(items.drop_last(), budget);
        lemma_doc_depth(items.last(), budget);
        if resolve_items(items, budget) is Ok {
            let done = resolve_items(items.drop_last(), budget)->Ok_0;
            let c = resolve_doc(items.last(), budget)->Ok_0;
            assert(done.push(c).drop_last() =~= done);
        }
    }
}

proof fn lemma_text_depth(d: JsonView, budget: nat)
    ensures
        resolve_text(d, budget) is Ok ==> text_depth(resolve_text(d, budget)->Ok_0) <= budget,
    decreases budget, 0nat, 0nat,
{
    if budget > 0 {
        if let JsonView::Object(obj) = d {
            lemma_fields_depth(obj, (budget - 1) as nat);
        }
    }
}

proof fn lemma_hover_of_depth(ev: Seq<(Seq<char>, JsonView)>, budget: nat)
    ensures
        hover_of(ev, budget) is Ok ==> hover_depth(hover_of(ev, budget)->Ok_0) <= budget,
    decreases budget, 2nat, 0nat,
{
    if let Some(v) = lookup(ev, "value"@) {
        lemma_text_depth(v, budget);
    }
}

proof fn lemma_hover_attr_depth(obj: Seq<(Seq<char>, JsonView)>, budget: nat)
    ensures
        hover_attr(obj, budget) matches Ok(Some(h)) ==> hover_depth(h) <= budget,
    decreases budget, 3nat, 0nat,
{
    if let Some(JsonView::Object(ev)) = lookup(obj, "hoverEvent"@) {
        lemma_hover_of_depth(ev, budget);
    }
}

proof fn lemma_extra_attr_depth(obj: Seq<(Seq<char>, JsonView)>, budget: nat)
    ensures
        extra_attr(obj, budget) matches Ok(Some(children)) ==> all_depth(children) <= budget,
    decreases budget, 3nat, 0nat,
{
    if let Some(JsonView::Array(items)) = lookup(obj, "extra"@) {
        lemma_items_depth(items, budget);
    }
}

proof fn lemma_fields_depth(obj: Seq<(Seq<char>, JsonView)>, budget: nat)
    ensures
        resolve_fields(obj, budget) is Ok ==> fields_depth(resolve_fields(obj, budget)->Ok_0) <= budget,
    decreases budget, 4nat, 0nat,
{
    lemma_hover_attr_depth(obj, budget);
    lemma_extra_attr_depth(obj, budget);
}

proof fn lemma_doc_depth(d: JsonView, budget: nat)
    ensures
        resolve_doc(d, budget) is Ok ==> depth(resolve_doc(d, budget)->Ok_0) <= budget,
    decreases budget, 0nat, 0nat,
{
    if budget > 0 {
        if let JsonView::Object(obj) = d {
            lemma_fields_depth(obj, (budget - 1) as nat);
            if let Some(JsonView::Array(args)) = lookup(obj, "with"@) {
                lemma_items_depth(args, (budget - 1) as nat);
            }
        }
    }
}

/// Resolution never yields a tree deeper than its bound: a document that
/// nests components (through `extra`, `with` or hover events) more deeply
/// than `budget` levels does not resolve.
pub proof fn lemma_resolved_within_bound(d: JsonView, budget: nat)
    ensures
        resolve_doc(d, budget) is Ok ==> depth(resolve_doc(d, budget)->Ok_0) <= budget,
{
    lemma_doc_depth(d, budget);
}

} // verus!
