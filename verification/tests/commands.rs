use taurus_bridge::commands::{
    list_reply, reconnect_request, reply_line, request_line, sessions_json, size_field,
    BackupCommand,
};
use taurus_bridge::fields::{
    board_field, server_fields, session_fields, Field, Game, Server, Session,
};

fn field(name: &str, value: &str, inline: bool) -> Field {
    Field { name: name.to_string(), value: value.to_string(), inline }
}

#[test]
fn request_is_verb_space_arguments() {
    assert_eq!(request_line("RCON", "smp list"), "RCON smp list");
    assert_eq!(request_line("LIST_BACKUPS", ""), "LIST_BACKUPS ");
}

#[test]
fn backup_commands_name_verb_title_and_line() {
    let list = BackupCommand::List;
    assert_eq!(list.verb(), "LIST_BACKUPS");
    assert_eq!(list.title(), "Backup List");
    assert_eq!(list.line(), "LIST_BACKUPS ");
    let rm = BackupCommand::Remove("old".to_string());
    assert_eq!(rm.verb(), "RM_BACKUP");
    assert_eq!(rm.title(), "Remove Backup");
    assert_eq!(rm.line(), "RM_BACKUP old");
    let new = BackupCommand::Create("before update".to_string());
    assert_eq!(new.verb(), "BACKUP");
    assert_eq!(new.title(), "Create Backup");
    assert_eq!(new.line(), "BACKUP before update");
}

#[test]
fn blank_replies_are_not_sent() {
    assert_eq!(reply_line("4"), Some("MSG 4".to_string()));
    assert_eq!(reply_line(" parse error "), Some("MSG  parse error ".to_string()));
    assert_eq!(reply_line(""), None);
    assert_eq!(reply_line(" \n\t"), None);
}

#[test]
fn reconnect_request_is_the_sentinel() {
    assert_eq!(reconnect_request(), "__RECONNECT__");
}

#[test]
fn players_are_listed_with_spread_colons() {
    assert_eq!(list_reply("LIST smp:Steve,Alex cmp:Bob"), "```smp: Steve,Alex cmp: Bob```");
    assert_eq!(list_reply("LIST ab"), "```ab```");
    assert_eq!(list_reply("LIST :"), "```: ```");
}

#[test]
fn nobody_online_is_said_in_words() {
    let nobody = "```No players are currently online.```";
    assert_eq!(list_reply("LIST "), nobody);
    assert_eq!(list_reply("LIST a"), nobody);
    assert_eq!(list_reply("LIST"), nobody);
    assert_eq!(list_reply(""), nobody);
    assert_eq!(list_reply("LIST \u{e9}"), "```\u{e9}```");
}

#[test]
fn sessions_follow_the_tag() {
    assert_eq!(sessions_json("LIST_SESSIONS [{\"name\":\"smp\"}]"), "[{\"name\":\"smp\"}]");
    assert_eq!(sessions_json("LIST_SESSIONS "), "");
    assert_eq!(sessions_json("LIST_SESSIONS"), "");
    assert_eq!(sessions_json(""), "");
}

#[test]
fn size_is_what_stands_ahead_of_the_tab() {
    assert_eq!(size_field("4.2G\t/srv/smp/world\n"), "4.2G");
    assert_eq!(size_field("no tab"), "no tab");
    assert_eq!(size_field("\tx"), "");
    assert_eq!(size_field(""), "");
}

#[test]
fn session_with_everything_has_all_fields() {
    let s = Session {
        name: "smp".to_string(),
        description: Some("survival".to_string()),
        host: "node1".to_string(),
        game: Some(Game {
            chat_bridge: Some(true),
            backup_interval: Some(3600),
            backup_keep: Some(86400),
        }),
        rcon: true,
    };
    assert_eq!(
        session_fields(&s),
        vec![
            field("Name: smp", "", false),
            field("Description", "survival", false),
            field("Host", "node1", true),
            field("RCON", "Enabled", true),
            field("Chat Bridge", "true", true),
            field("Backup Interval", "3600 seconds", true),
            field("Backup Keep Time", "86400 seconds", true),
        ]
    );
}

#[test]
fn session_fields_leave_out_what_is_not_said() {
    let mut s = Session {
        name: "cmp".to_string(),
        description: None,
        host: "node2".to_string(),
        game: None,
        rcon: false,
    };
    let base = vec![
        field("Name: cmp", "", false),
        field("Host", "node2", true),
        field("RCON", "Disabled", true),
    ];
    assert_eq!(session_fields(&s), base);
    s.game = Some(Game { chat_bridge: None, backup_interval: Some(0), backup_keep: None });
    assert_eq!(session_fields(&s), base);
    s.game = Some(Game { chat_bridge: Some(false), backup_interval: None, backup_keep: Some(5) });
    let mut want = base.clone();
    want.push(field("Chat Bridge", "false", true));
    want.push(field("Backup Keep Time", "5 seconds", true));
    assert_eq!(session_fields(&s), want);
}

#[test]
fn machine_is_shown_part_by_part() {
    let s = Server {
        name: "node1".to_string(),
        cpu: "8 cores".to_string(),
        ram: "64 GB".to_string(),
        drives: "2 TB".to_string(),
        gpu: "none".to_string(),
    };
    assert_eq!(
        server_fields(&s),
        vec![
            field("node1", "", false),
            field("CPU", "8 cores", true),
            field("RAM", "64 GB", true),
            field("Drives", "2 TB", true),
            field("GPU", "none", true),
        ]
    );
}

#[test]
fn info_board_line_splits_at_the_first_bar() {
    assert_eq!(board_field(" Uptime | 3 days "), field("Uptime", "3 days", false));
    assert_eq!(board_field("a|b|c"), field("a", "b|c", false));
    assert_eq!(board_field("only title "), field("only title", "", false));
    assert_eq!(board_field("|x"), field("", "x", false));
    assert_eq!(board_field("x|"), field("x", "", false));
    assert_eq!(board_field(""), field("", "", false));
}
