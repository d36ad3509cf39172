use nova_protocol::modding::events::action::EventAction;
use nova_protocol::modding::events::filter::EventFilter;
use nova_protocol::modding::events::game_event::{on_game_event, GameEvent, GameEventInfo};
use nova_protocol::modding::events::handler::EventHandler;
use nova_protocol::modding::events::kind::EventKind;

#[derive(Debug, Clone, Default, PartialEq)]
struct DestroyedInfo {
    id: u32,
}

struct OnDestroyed;

impl EventKind for OnDestroyed {
    type Info = DestroyedInfo;
    fn name() -> &'static str {
        "ondestroyed"
    }
}

struct IsPlayer;

impl EventFilter for IsPlayer {
    fn filter(&self, info: &GameEventInfo) -> bool {
        info.data == Some(serde_json::Value::from("player"))
    }
    fn name(&self) -> &'static str {
        "is_player"
    }
}

struct Say(&'static str);

impl EventAction<Vec<String>> for Say {
    fn action(&self, commands: &mut Vec<String>, _info: &GameEventInfo) {
        commands.push(self.0.to_string());
    }
    fn name(&self) -> &'static str {
        "say"
    }
}

type Handler = EventHandler<OnDestroyed, IsPlayer, Say>;

fn player() -> GameEventInfo {
    GameEventInfo { data: Some(serde_json::Value::from("player")) }
}

fn asteroid() -> GameEventInfo {
    GameEventInfo { data: Some(serde_json::Value::from("asteroid")) }
}

#[test]
fn game_event_carries_its_info() {
    let e = GameEvent::<OnDestroyed>::with_info(DestroyedInfo { id: 7 });
    assert_eq!(e.info(), &DestroyedInfo { id: 7 });
    let d = GameEvent::<OnDestroyed>::new();
    assert_eq!(d.info(), &DestroyedInfo::default());
    let d2 = GameEvent::<OnDestroyed>::default();
    assert_eq!(d2.info(), &DestroyedInfo { id: 0 });
}

#[test]
fn handlers_act_in_order_when_their_filters_pass() {
    let everyone = Handler::new().with_action(Say("boom")).with_action(Say("again"));
    let only_player = Handler::default().with_filter(IsPlayer).with_action(Say("game over"));
    let handlers = vec![&everyone, &only_player];

    let mut commands: Vec<String> = vec![];
    on_game_event(&asteroid(), &mut commands, &handlers);
    assert_eq!(commands, vec!["boom", "again"]);

    let mut commands: Vec<String> = vec![];
    on_game_event(&player(), &mut commands, &handlers);
    assert_eq!(commands, vec!["boom", "again", "game over"]);
}

#[test]
fn handler_filter_checks_every_filter() {
    let mut h = Handler::new();
    assert!(h.filter(&asteroid()));
    h.add_filter(IsPlayer);
    assert!(!h.filter(&asteroid()));
    assert!(h.filter(&player()));
    h.add_action(Say("x"));
    let mut commands: Vec<String> = vec![];
    h.run_actions(&mut commands, &player());
    assert_eq!(commands, vec!["x"]);
}

struct Always;

impl EventFilter for Always {
    fn filter(&self, _info: &GameEventInfo) -> bool {
        true
    }
    fn name(&self) -> &'static str {
        "always"
    }
}

struct Shout(&'static str);

impl EventAction<Vec<String>> for Shout {
    fn action(&self, commands: &mut Vec<String>, _info: &GameEventInfo) {
        commands.push(self.0.to_uppercase());
    }
    fn name(&self) -> &'static str {
        "shout"
    }
}

#[test]
fn handlers_mix_filter_and_action_types_through_boxes() {
    type Mixed = EventHandler<OnDestroyed, Box<dyn EventFilter>, Box<dyn EventAction<Vec<String>>>>;
    let handler = Mixed::new()
            .with_filter(Box::new(Always))
            .with_filter(Box::new(IsPlayer))
            .with_action(Box::new(Say("boom")))
            .with_action(Box::new(Shout("bang")));
    let handlers = vec![&handler];
    let mut commands: Vec<String> = vec![];
    on_game_event(&player(), &mut commands, &handlers);
    assert_eq!(commands, vec!["boom".to_string(), "BANG".to_string()]);
    on_game_event(&asteroid(), &mut commands, &handlers);
    assert_eq!(commands.len(), 2);
}
