use gmlpp::project::Event;
use gmlpp::project::EventType;
use gmlpp::project::Model;
use gmlpp::project::ResourceTag;
use gmlpp::project::ResourceType;
use gmlpp::project::ResourceValue;
use gmlpp::project::Script;
use gmlpp::project::Source;
use gmlpp::project::ID;

fn id(text: &str) -> ID {
    ID(text.to_string())
}

fn event(eventtype: i32, enumb: i32) -> Event {
    Event {
        id: id("e1"),
        model_name: Model::Event,
        mvc: "1.0".to_string(),
        is_dnd: false,
        collision_object_id: id("c1"),
        enumb,
        eventtype,
        m_owner: id("o1"),
    }
}

#[test]
fn source_of_a_gmlpp_path() {
    let source = Source::from("scripts/foo/foo.gmlpp").unwrap();
    assert_eq!(source.gml(), "scripts/foo/foo.gml");
    assert_eq!(source.gmlpp(), &Some("scripts/foo/foo.gmlpp".to_string()));
    assert_eq!(source.helper(), &None);
    assert_eq!(source.clone(), source);
    assert_eq!(Source::from("a.gmlpp").unwrap().gml(), "a.gml");
}

#[test]
fn other_paths_are_no_sources() {
    assert_eq!(Source::from("scripts/foo/foo.gml"), None);
    assert_eq!(Source::from(".gmlpp"), None);
    assert_eq!(Source::from("dir/.gmlpp"), None);
    assert_eq!(Source::from("gmlpp"), None);
    assert_eq!(Source::from(""), None);
    assert_eq!(Source::from("foo.gmlpp.bak"), None);
}

#[test]
fn source_from_its_paths() {
    let source = Source::new("a.gml".to_string(), None, Some("h.gml".to_string()));
    assert_eq!(source.gml(), "a.gml");
    assert_eq!(source.gmlpp(), &None);
    assert_eq!(source.helper(), &Some("h.gml".to_string()));
}

#[test]
fn event_types_by_code() {
    assert_eq!(format!("{:?}", event(0, 5).event_type()), "Create(5)");
    assert_eq!(format!("{:?}", event(3, 1).event_type()), "Step(1)");
    assert_eq!(format!("{:?}", event(4, 1).event_type()), "Collision(ID(\"e1\"))");
    assert_eq!(format!("{:?}", event(7, 10).event_type()), "Other(10)");
    assert_eq!(format!("{:?}", event(8, 64).event_type()), "Draw(64)");
    assert_eq!(format!("{:?}", event(12, 0).event_type()), "CleanUp(0)");
    assert!(event(0, 0).is_known());
    assert!(!event(1, 0).is_known());
    assert!(!event(-1, 0).is_known());
}

#[test]
fn event_file_names() {
    assert_eq!(EventType::Create(0).file_name(), "Create_0.gml");
    assert_eq!(EventType::Step(2).file_name(), "Step_2.gml");
    assert_eq!(EventType::Collision(id("abc-def")).file_name(), "Collision_abc-def.gml");
    assert_eq!(EventType::Other(10).file_name(), "Other_10.gml");
    assert_eq!(EventType::Draw(64).file_name(), "Draw_64.gml");
    assert_eq!(EventType::CleanUp(0).file_name(), "CleanUp_0.gml");
    assert_eq!(EventType::Create(-7).file_name(), "Create_-7.gml");
    assert_eq!(EventType::Create(i32::MAX).file_name(), "Create_2147483647.gml");
    assert_eq!(EventType::Create(i32::MIN).file_name(), "Create_-2147483648.gml");
    assert_eq!(EventType::Create(1000).file_name(), "Create_1000.gml");
}

#[test]
fn script_has_one_source() {
    let script = Script {
        id: id("s1"),
        mvc: "1.0".to_string(),
        name: "foo".to_string(),
        is_compatibility: false,
        is_dnd: false,
    };
    let sources = script.sources();
    assert_eq!(sources.len(), 1);
    assert_eq!(sources[0].gml(), "foo.gml");
    assert_eq!(sources[0].gmlpp(), &Some("foo.gmlpp".to_string()));
    assert_eq!(sources[0].helper(), &None);
}

#[test]
fn resource_tags() {
    let tag = |resource_type: ResourceType| ResourceTag {
        key: id("k"),
        value: ResourceValue {
            id: id("v"),
            config_deltas: None,
            resource_path: "scripts\\foo\\foo.yy".to_string(),
            resource_type,
        },
    };
    assert_eq!(tag(ResourceType::Script).resource_type(), ResourceType::Script);
    assert_eq!(tag(ResourceType::Room).resource_type(), ResourceType::Room);
    assert!(tag(ResourceType::Script).has_sources());
    assert!(tag(ResourceType::Object).has_sources());
    assert!(!tag(ResourceType::Sprite).has_sources());
    assert_eq!(tag(ResourceType::Script).resource_file("/home/p"), "/home/p/scripts/foo/foo.yy");
    assert_eq!(id("abc").print(), "abc");
    assert_eq!(id("abc").clone(), id("abc"));
}
