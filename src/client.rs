use vstd::prelude::*;
use crate::component::{components_view, lemma_components_view, Component, ComponentView, TextView};
use crate::json::json_of_text;
use crate::render::rendered;
use crate::resolve::{parse_component, resolve_doc, MAX_DEPTH};

verus! {

/// The index of the first occurrence of `c` in `s`, or the length of `s`.
pub open spec fn first_index_of(s: Seq<char>, c: char) -> int
    decreases s.len(),
{
    if s.len() == 0 {
        0
    } else if s[0] == c {
        0
    } else {
        1 + first_index_of(s.skip(1), c)
    }
}

/// The locale named by a `LANG` setting: the part before the first `.`, or
/// `en_US` where the setting is missing or is `C`.
pub open spec fn locale_of(lang: Option<Seq<char>>) -> Seq<char> {
    match lang {
        Some(l) => if l == "C"@ {
            "en_US"@
        } else {
            l.take(first_index_of(l, '.'))
        },
        None => "en_US"@,
    }
}

/// A chat message that echoes what this user said: a `chat.type.text`
/// translation whose first argument is a text node holding the user's name.
pub open spec fn own_message(c: ComponentView, user: Seq<char>) -> bool {
    &&& c matches ComponentView::Translation { key, with, .. }
    &&& key == "chat.type.text"@
    &&& with.len() > 0
    &&& with[0] matches ComponentView::Text(TextView::Mixed(name, _))
    &&& name == user
}

proof fn lemma_first_index_of(s: Seq<char>, c: char)
    ensures
        0 <= first_index_of(s, c) <= s.len(),
        first_index_of(s, c) < s.len() ==> s[first_index_of(s, c)] == c,
        forall|j: int| 0 <= j < first_index_of(s, c) ==> s[j] != c,
    decreases s.len(),
{
    if s.len() > 0 && s[0] != c {
        lemma_first_index_of(s.skip(1), c);
        assert forall|j: int| 0 <= j < first_index_of(s, c) implies s[j] != c by {
            if j > 0 {
                assert(s.skip(1)[j - 1] == s[j]);
            }
        }
    }
}

/// The locale to announce to a server, from the `LANG` setting.
pub fn locale_from_lang(lang: Option<&str>) -> (r: String)
    ensures
        r@ == locale_of(
            match lang {
                Some(l) => Some(l@),
                None => None,
            },
        ),
{
    match lang {
        None => "en_US".to_owned(),
        Some(l) => {
            let owned = l.to_owned();
            let c = "C".to_owned();
            if owned == c {
                return "en_US".to_owned();
            }
            let len = l.unicode_len();
            let mut i: usize = 0;
            proof {
                lemma_first_index_of(l@, '.');
            }
            let mut found = false;
            while i < len && !found
                invariant
                    len == l@.len(),
                    i <= len,
                    found ==> i < len && l@[i as int] == '.',
                    forall|j: int| 0 <= j < i ==> l@[j] != '.',
                    i <= first_index_of(l@, '.'),
                    forall|j: int| 0 <= j < first_index_of(l@, '.') ==> l@[j] != '.',
                    0 <= first_index_of(l@, '.') <= l@.len(),
                    first_index_of(l@, '.') < l@.len() ==> l@[first_index_of(l@, '.')] == '.',
                decreases len - i + (if found { 0int } else { 1int }),
            {
                if l.get_char(i) == '.' {
                    found = true;
                } else {
                    i = i + 1;
                }
            }
            assert(i == first_index_of(l@, '.'));
            assert(l@.subrange(0, i as int) =~= l@.take(i as int));
            l.substring_char(0, i).to_owned()
        },
    }
}

/// Whether a chat message only echoes what `username` said.
pub fn is_own_message(msg: &Component, username: &str) -> (r: bool)
    ensures
        r == own_message(msg.view(), username@),
{
    match msg {
        Component::Translation(t) => {
            let key = "chat.type.text".to_owned();
            if t.translate != key || t.with.len() == 0 {
                return false;
            }
            proof {
                lemma_components_view(t.with@);
            }
            match &t.with[0] {
                Component::String(crate::component::StringComponent::Mixed { text, .. }) => {
                    let user = username.to_owned();
                    *text == user
                },
                _ => false,
            }
        },
        _ => false,
    }
}

/// What to show for an incoming chat message given as JSON text: nothing
/// where it echoes `username`'s own words, its rendering where it resolves,
/// and a notice with the raw text where it does not.
pub fn chat_line(text: &str, username: &str) -> (r: Option<String>)
    ensures
        match json_of_text(text@) {
            Some(d) if resolve_doc(d, MAX_DEPTH as nat) is Ok => {
                let c = resolve_doc(d, MAX_DEPTH as nat)->Ok_0;
                if own_message(c, username@) {
                    r is None
                } else {
                    r matches Some(s) && s@ == rendered(c)
                }
            },
            _ => r matches Some(s) && s@ == "Failed to parse message: "@ + text@,
        },
{
    match parse_component(text) {
        Ok(msg) => {
            if is_own_message(&msg, username) {
                None
            } else {
                Some(msg.render())
            }
        },
        Err(_) => {
            let mut line = "Failed to parse message: ".to_owned();
            line.append(text);
            Some(line)
        },
    }
}

} // verus!
