use mc_chat::component::{
    ClickEvent, Component, ComponentFields, HoverEvent, KeybindComponent, ScoreComponent,
    SelectorComponent, StringComponent, TranslationComponent,
};
use mc_chat::json::Json;
use mc_chat::resolve::{
    parse_component, parse_string_component, resolve, resolve_string, resolve_with_limit,
    ChatError, MAX_DEPTH,
};

fn s(text: &str) -> String {
    text.to_string()
}

fn obj(entries: Vec<(&str, Json)>) -> Json {
    Json::Object(entries.into_iter().map(|(k, v)| (k.to_string(), v)).collect())
}

fn text_node(text: &str) -> Component {
    Component::String(StringComponent::Raw(s(text)))
}

#[test]
fn string_raw() {
    let input = r#""string""#;
    let expect = Component::String(StringComponent::Raw(r#"string"#.into()));

    let r: Component = parse_component(input).unwrap();
    assert_eq!(r, expect);
}

#[test]
fn string_mixed() {
    let input = r#"{ "text": "string" }"#;
    let expect = StringComponent::Mixed {
        text: "string".into(),
        fields: ComponentFields::default(),
    };

    let r: StringComponent = parse_string_component(input).unwrap();
    assert_eq!(r, expect);
}

const PLAYER_JOIN: &str = r#"
{
   "color":"yellow",
   "translate":"multiplayer.player.joined",
   "with":[
      {
         "insertion":"Username",
         "clickEvent":{
            "action":"suggest_command",
            "value":"/tell Username "
         },
         "hoverEvent":{
            "action":"show_entity",
            "value":{
               "text":"Hover"
            }
         },
         "text":"Username"
      }
   ]
}"#;

#[test]
fn player_join() {
    let expect = Component::Translation(TranslationComponent {
        translate: "multiplayer.player.joined".into(),
        with: vec![Component::String(StringComponent::Mixed {
            text: "Username".into(),
            fields: ComponentFields {
                insertion: Some("Username".into()),
                click_event: Some(ClickEvent::SuggestCommand("/tell Username ".into())),
                hover_event: Some(HoverEvent::ShowEntity(Box::new(StringComponent::Mixed {
                    text: "Hover".into(),
                    fields: ComponentFields::default(),
                }))),
                ..ComponentFields::default()
            },
        })],
        fields: ComponentFields {
            color: Some("yellow".into()),
            ..ComponentFields::default()
        },
    });
    let r: Component = parse_component(PLAYER_JOIN).unwrap();
    assert_eq!(r, expect);
}

#[test]
fn player_join_renders_key_and_argument() {
    let r = parse_component(PLAYER_JOIN).unwrap();
    assert_eq!(r.render(), "[multiplayer.player.joined] Username");
}

#[test]
fn bare_string_renders_as_itself() {
    let r = parse_component(r#""a \"quoted\" word""#).unwrap();
    assert_eq!(r, text_node("a \"quoted\" word"));
    assert_eq!(r.render(), "a \"quoted\" word");
    let doc = Json::Str(s("plain"));
    let r = resolve(&doc).unwrap();
    assert_eq!(r, text_node("plain"));
    assert_eq!(r.render(), "plain");
}

#[test]
fn empty_bare_string() {
    let r = parse_component(r#""""#).unwrap();
    assert_eq!(r, text_node(""));
    assert_eq!(r.render(), "");
}

#[test]
fn text_object_has_no_attributes() {
    let r = parse_component(r#"{"text":"string"}"#).unwrap();
    assert_eq!(
        r,
        Component::String(StringComponent::Mixed {
            text: s("string"),
            fields: ComponentFields::default(),
        })
    );
}

#[test]
fn render_twice_is_the_same() {
    let r = parse_component(PLAYER_JOIN).unwrap();
    assert_eq!(r.render(), r.render());
}

#[test]
fn extra_children_follow_in_order() {
    let ab = parse_component(r#"{"text":"x","extra":["a",{"text":"b"}]}"#).unwrap();
    assert_eq!(ab.render(), "xab");
    let ba = parse_component(r#"{"text":"x","extra":[{"text":"b"},"a"]}"#).unwrap();
    assert_eq!(ba.render(), "xba");
}

#[test]
fn translation_renders_arguments_then_extra() {
    let r = parse_component(
        r#"{"translate":"k","with":["a",{"text":"b","extra":["c"]}],"extra":["!"]}"#,
    )
    .unwrap();
    assert_eq!(r.render(), "[k] a bc!");
}

#[test]
fn translation_without_with_has_no_arguments() {
    let r = parse_component(r#"{"translate":"k"}"#).unwrap();
    assert_eq!(
        r,
        Component::Translation(TranslationComponent {
            translate: s("k"),
            with: vec![],
            fields: ComponentFields::default(),
        })
    );
    assert_eq!(r.render(), "[k]");
}

#[test]
fn text_wins_over_translate() {
    let r = parse_component(r#"{"translate":"k","text":"t","with":["a"]}"#).unwrap();
    assert_eq!(
        r,
        Component::String(StringComponent::Mixed {
            text: s("t"),
            fields: ComponentFields::default(),
        })
    );
    assert_eq!(r.render(), "t");
}

#[test]
fn with_not_an_array_is_a_type_mismatch() {
    assert_eq!(
        parse_component(r#"{"translate":"k","with":"a"}"#),
        Err(ChatError::TypeMismatch)
    );
    assert_eq!(parse_component(r#"{"with":5}"#), Err(ChatError::TypeMismatch));
}

#[test]
fn empty_object_is_a_schema_mismatch() {
    assert_eq!(parse_component("{}"), Err(ChatError::SchemaMismatch));
    assert_eq!(parse_component(r#"{"color":"red"}"#), Err(ChatError::SchemaMismatch));
    assert_eq!(parse_component("42"), Err(ChatError::SchemaMismatch));
}

#[test]
fn wrong_types_are_type_mismatches() {
    assert_eq!(parse_component(r#"{"text":5}"#), Err(ChatError::TypeMismatch));
    assert_eq!(
        parse_component(r#"{"text":"a","bold":"yes"}"#),
        Err(ChatError::TypeMismatch)
    );
    assert_eq!(
        parse_component(r#"{"text":"a","extra":"b"}"#),
        Err(ChatError::TypeMismatch)
    );
    assert_eq!(
        parse_component(r#"{"text":"a","clickEvent":{"action":"fly","value":"x"}}"#),
        Err(ChatError::TypeMismatch)
    );
    assert_eq!(
        parse_component(r#"{"text":"a","hoverEvent":{"action":"show_text","value":{}}}"#),
        Err(ChatError::TypeMismatch)
    );
}

#[test]
fn invalid_json_is_a_syntax_error() {
    assert_eq!(parse_component("{\"text\":"), Err(ChatError::SyntaxError));
    assert_eq!(parse_string_component("not json"), Err(ChatError::SyntaxError));
}

#[test]
fn null_attributes_are_absent() {
    let r = parse_component(r#"{"text":"a","bold":null,"color":null}"#).unwrap();
    assert_eq!(
        r,
        Component::String(StringComponent::Mixed {
            text: s("a"),
            fields: ComponentFields::default(),
        })
    );
}

#[test]
fn attributes_are_kept() {
    let r = parse_component(
        r#"{"text":"a","bold":true,"italic":false,"underlined":true,"strikethrough":false,
            "obfuscated":true,"color":"red","insertion":"ins",
            "clickEvent":{"action":"open_url","value":"http://x"},
            "hoverEvent":{"action":"show_text","value":"tip"}}"#,
    )
    .unwrap();
    let expect = Component::String(StringComponent::Mixed {
        text: s("a"),
        fields: ComponentFields {
            bold: Some(true),
            italic: Some(false),
            underlined: Some(true),
            strikethrough: Some(false),
            obfuscated: Some(true),
            color: Some(s("red")),
            insertion: Some(s("ins")),
            click_event: Some(ClickEvent::OpenUrl(s("http://x"))),
            hover_event: Some(HoverEvent::ShowText(Box::new(StringComponent::Raw(s("tip"))))),
            extra: None,
        },
    });
    assert_eq!(r, expect);
    assert_eq!(r.render(), "a");
}

#[test]
fn click_events_of_every_kind() {
    let cases = [
        ("open_url", ClickEvent::OpenUrl(s("v"))),
        ("open_file", ClickEvent::OpenFile(s("v"))),
        ("run_command", ClickEvent::RunCommand(s("v"))),
        ("twitch_user_info", ClickEvent::TwitchUserInfo(s("v"))),
        ("suggest_command", ClickEvent::SuggestCommand(s("v"))),
    ];
    for (action, expect) in cases {
        let text = format!(r#"{{"text":"","clickEvent":{{"action":"{}","value":"v"}}}}"#, action);
        match parse_component(&text).unwrap() {
            Component::String(StringComponent::Mixed { fields, .. }) => {
                assert_eq!(fields.click_event, Some(expect))
            }
            other => panic!("unexpected {:?}", other),
        }
    }
}

#[test]
fn change_page_takes_a_non_negative_integer() {
    let r = parse_component(r#"{"text":"","clickEvent":{"action":"change_page","value":12}}"#)
        .unwrap();
    match r {
        Component::String(StringComponent::Mixed { fields, .. }) => {
            assert_eq!(fields.click_event, Some(ClickEvent::ChangePage(12)))
        }
        other => panic!("unexpected {:?}", other),
    }
    for bad in ["-1", "1.5", "\"3\"", "18446744073709551616"] {
        let text = format!(
            r#"{{"text":"","clickEvent":{{"action":"change_page","value":{}}}}}"#,
            bad
        );
        assert_eq!(parse_component(&text), Err(ChatError::TypeMismatch), "{}", bad);
    }
}

#[test]
fn hover_events_of_every_kind() {
    let cases: [(&str, fn(Box<StringComponent>) -> HoverEvent); 4] = [
        ("show_text", HoverEvent::ShowText),
        ("show_item", HoverEvent::ShowItem),
        ("show_entity", HoverEvent::ShowEntity),
        ("show_achievement", HoverEvent::ShowAchievement),
    ];
    for (action, make) in cases {
        let text = format!(r#"{{"text":"","hoverEvent":{{"action":"{}","value":"v"}}}}"#, action);
        match parse_component(&text).unwrap() {
            Component::String(StringComponent::Mixed { fields, .. }) => assert_eq!(
                fields.hover_event,
                Some(make(Box::new(StringComponent::Raw(s("v")))))
            ),
            other => panic!("unexpected {:?}", other),
        }
    }
}

#[test]
fn keybind_score_and_selector_nodes() {
    let k = parse_component(r#"{"keybind":"key.jump"}"#).unwrap();
    assert_eq!(
        k,
        Component::Keybind(KeybindComponent {
            keybind: s("key.jump"),
            fields: ComponentFields::default(),
        })
    );
    assert_eq!(k.render(), "<keybind:key.jump>");

    let sc = parse_component(r#"{"score":{"name":"p","objective":"o"},"extra":["!"]}"#).unwrap();
    assert_eq!(
        sc,
        Component::Score(ScoreComponent {
            score: obj(vec![("name", Json::Str(s("p"))), ("objective", Json::Str(s("o")))]),
            fields: ComponentFields {
                extra: Some(vec![text_node("!")]),
                ..ComponentFields::default()
            },
        })
    );
    assert_eq!(sc.render(), "<score>!");

    let se = parse_component(r#"{"selector":"@p"}"#).unwrap();
    assert_eq!(
        se,
        Component::Selector(SelectorComponent {
            selector: Json::Str(s("@p")),
            fields: ComponentFields::default(),
        })
    );
    assert_eq!(se.render(), "<selector>");
}

#[test]
fn numbers_are_kept_as_their_text() {
    let r = parse_component(r#"{"score":[1,-2,true,null]}"#).unwrap();
    match r {
        Component::Score(sc) => assert_eq!(
            sc.score,
            Json::Array(vec![
                Json::Number(s("1")),
                Json::Number(s("-2")),
                Json::Bool(true),
                Json::Null,
            ])
        ),
        other => panic!("unexpected {:?}", other),
    }
}

fn extra_chain(n: usize) -> Json {
    let mut d = Json::Str(s(""));
    for _ in 0..n {
        d = obj(vec![("text", Json::Str(s(""))), ("extra", Json::Array(vec![d]))]);
    }
    d
}

fn with_chain(n: usize) -> Json {
    let mut d = Json::Str(s("x"));
    for _ in 0..n {
        d = obj(vec![("translate", Json::Str(s("k"))), ("with", Json::Array(vec![d]))]);
    }
    d
}

#[test]
fn nesting_beyond_the_bound_is_refused() {
    assert_eq!(MAX_DEPTH, 512);
    assert_eq!(resolve_with_limit(&extra_chain(64), 64), Err(ChatError::DepthExceeded));
    assert!(resolve_with_limit(&extra_chain(63), 64).is_ok());
    assert_eq!(resolve_with_limit(&with_chain(64), 64), Err(ChatError::DepthExceeded));
    assert!(resolve_with_limit(&with_chain(63), 64).is_ok());
    assert!(resolve(&with_chain(63)).is_ok());
}

#[test]
fn nesting_bound_is_configurable() {
    assert_eq!(resolve_with_limit(&extra_chain(3), 3), Err(ChatError::DepthExceeded));
    let r = resolve_with_limit(&extra_chain(2), 3).unwrap();
    assert_eq!(r.render(), "");
    assert_eq!(resolve_with_limit(&Json::Str(s("a")), 0), Err(ChatError::DepthExceeded));
    let hover = obj(vec![
        ("text", Json::Str(s("a"))),
        (
            "hoverEvent",
            obj(vec![("action", Json::Str(s("show_text"))), ("value", Json::Str(s("h")))]),
        ),
    ]);
    assert_eq!(resolve_with_limit(&hover, 1), Err(ChatError::DepthExceeded));
    assert!(resolve_with_limit(&hover, 2).is_ok());
}

#[test]
fn resolve_string_reads_text_nodes_only() {
    assert_eq!(
        resolve_string(&Json::Str(s("a"))),
        Ok(StringComponent::Raw(s("a")))
    );
    assert_eq!(
        resolve_string(&obj(vec![("translate", Json::Str(s("k")))])),
        Err(ChatError::TypeMismatch)
    );
    let t = parse_string_component(r#"{"text":"a","extra":["b"]}"#).unwrap();
    assert_eq!(t.render(), "ab");
}

#[test]
fn duplicate_copies_a_document() {
    let d = obj(vec![
        ("a", Json::Array(vec![Json::Number(s("1")), Json::Null])),
        ("b", Json::Bool(false)),
    ]);
    assert_eq!(d.duplicate(), d);
}
