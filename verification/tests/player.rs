use cosmic_sim::console::{
    chat_command, main_action, saves_on_quit, typewrite_delay_ms, universal_command, ChatChannel,
    ChatCommand, MainAction, UniversalCommand,
};
use cosmic_sim::player::tech::TechSet;
use cosmic_sim::strset::StringSet;

#[test]
fn new_tech_set_is_empty() {
    let t = TechSet::default();
    assert!(!t.has("hd_separation"));
    assert!(t.all().is_empty());
}

#[test]
fn unlock_grants_only_that_technology() {
    let mut t = TechSet::default();
    t.unlock("hd_separation");
    assert!(t.has("hd_separation"));
    assert!(!t.has("ism_scoop"));
    assert!(!t.has("hd"));
}

#[test]
fn unlock_is_idempotent() {
    let mut t = TechSet::default();
    t.unlock("cryo_drill");
    t.unlock("atmo_scoop");
    t.unlock("cryo_drill");
    assert_eq!(t.all(), &vec!["cryo_drill".to_string(), "atmo_scoop".to_string()]);
}

#[test]
fn string_set_insert_reports_new_members() {
    let mut s = StringSet::new();
    assert!(s.insert("a"));
    assert!(!s.insert("a"));
    assert!(s.insert("b"));
    assert_eq!(s.len(), 2);
    assert!(s.contains("b"));
    assert!(!s.contains("c"));
}

#[test]
fn typewriter_pauses() {
    assert_eq!(typewrite_delay_ms('.'), 55);
    assert_eq!(typewrite_delay_ms('?'), 55);
    assert_eq!(typewrite_delay_ms(','), 28);
    assert_eq!(typewrite_delay_ms('—'), 28);
    assert_eq!(typewrite_delay_ms('\n'), 60);
    assert_eq!(typewrite_delay_ms('x'), 13);
    assert_eq!(typewrite_delay_ms('-'), 13);
}

#[test]
fn universal_commands() {
    assert_eq!(universal_command("?"), Some(UniversalCommand::Help));
    assert_eq!(universal_command(" h \n"), Some(UniversalCommand::Help));
    assert_eq!(universal_command("H"), Some(UniversalCommand::Help));
    assert_eq!(universal_command("a"), Some(UniversalCommand::Aria));
    assert_eq!(universal_command("N"), Some(UniversalCommand::Note));
    assert_eq!(universal_command("q"), None);
    assert_eq!(universal_command("aa"), None);
    assert_eq!(universal_command(""), None);
}

#[test]
fn chat_commands_close_each_channel() {
    for ch in [ChatChannel::Group, ChatChannel::Companion, ChatChannel::Aria] {
        assert_eq!(chat_command(ch, "q"), Some(ChatCommand::Close));
        assert_eq!(chat_command(ch, "  QUIT "), Some(ChatCommand::Close));
        assert_eq!(chat_command(ch, "Disconnect"), Some(ChatCommand::Close));
    }
    assert_eq!(chat_command(ChatChannel::Aria, "exit"), Some(ChatCommand::Close));
    assert_eq!(chat_command(ChatChannel::Aria, "close"), None);
    assert_eq!(chat_command(ChatChannel::Companion, "close"), Some(ChatCommand::Close));
    assert_eq!(chat_command(ChatChannel::Group, "Close"), Some(ChatCommand::Close));
    assert_eq!(chat_command(ChatChannel::Group, "exit"), None);
}

#[test]
fn chat_commands_per_channel() {
    assert_eq!(chat_command(ChatChannel::Companion, "clear"), Some(ChatCommand::Clear));
    assert_eq!(chat_command(ChatChannel::Aria, "CLEAR"), Some(ChatCommand::Clear));
    assert_eq!(chat_command(ChatChannel::Group, "clear"), None);
    assert_eq!(chat_command(ChatChannel::Group, "/status"), Some(ChatCommand::Status));
    assert_eq!(chat_command(ChatChannel::Companion, "Status"), Some(ChatCommand::Status));
    assert_eq!(chat_command(ChatChannel::Aria, "status"), None);
    assert_eq!(chat_command(ChatChannel::Companion, "log\n"), Some(ChatCommand::Log));
    assert_eq!(chat_command(ChatChannel::Group, "/LOG"), Some(ChatCommand::Log));
    assert_eq!(chat_command(ChatChannel::Aria, "log"), None);
    assert_eq!(chat_command(ChatChannel::Companion, "quit now"), None);
    assert_eq!(chat_command(ChatChannel::Companion, "qq"), None);
    assert_eq!(chat_command(ChatChannel::Companion, "   "), None);
}

#[test]
fn main_menu_keys_follow_the_gameplay_table() {
    assert_eq!(main_action("1", false), MainAction::Scan);
    assert_eq!(main_action("2", false), MainAction::Travel);
    assert_eq!(main_action("3", false), MainAction::Land);
    assert_eq!(main_action("4", false), MainAction::StarChart);
    assert_eq!(main_action("r", false), MainAction::ShipStatus);
    assert_eq!(main_action("R", true), MainAction::ShipStatus);
    assert_eq!(main_action("5", false), MainAction::ShipStatus);
    assert_eq!(main_action("6", false), MainAction::PeriodicTable);
    assert_eq!(main_action("7", false), MainAction::Physics);
    assert_eq!(main_action("8", false), MainAction::Aria);
    assert_eq!(main_action("a", false), MainAction::Aria);
    assert_eq!(main_action("C", false), MainAction::Comms);
    assert_eq!(main_action("s", false), MainAction::Save);
    assert_eq!(main_action("Q", false), MainAction::Quit);
}

#[test]
fn main_menu_surface_keys_need_a_landing() {
    assert_eq!(main_action("m", true), MainAction::Mine);
    assert_eq!(main_action("M", false), MainAction::Idle);
    assert_eq!(main_action("p", true), MainAction::PlanetDetails);
    assert_eq!(main_action("P", false), MainAction::Idle);
}

#[test]
fn main_menu_unknown_keys() {
    assert_eq!(main_action("9", true), MainAction::Unknown);
    assert_eq!(main_action("", false), MainAction::Unknown);
    assert_eq!(main_action("12", false), MainAction::Unknown);
    assert_eq!(main_action(" 1", false), MainAction::Unknown);
}

#[test]
fn quitting_saves_unless_refused() {
    assert!(!saves_on_quit("n"));
    assert!(saves_on_quit("y"));
    assert!(saves_on_quit(""));
    assert!(saves_on_quit("N"));
    assert!(saves_on_quit("no"));
}

#[test]
fn string_set_keeps_insertion_order() {
    let mut s = StringSet::new();
    s.insert("zeta");
    s.insert("alpha");
    s.insert("zeta");
    s.insert("mid");
    assert_eq!(s.items(), &vec!["zeta".to_string(), "alpha".to_string(), "mid".to_string()]);
    let d = s.duplicate();
    assert_eq!(d.items(), s.items());
}
