use taurus_bridge::config::{ConfigValue, EmbedOpts, World};
use taurus_bridge::number::parse_hex;

fn config() -> ConfigValue {
    ConfigValue {
        name: "bot".to_string(),
        prefix: vec!["!".to_string()],
        staff: vec![11, 22],
        admin_role: 1,
        member_role: 2,
        grinder_role: 3,
        worlds: vec![
            World { name: "SMP".to_string(), path: "/srv/smp/world".to_string() },
            World { name: "CMP".to_string(), path: "/srv/cmp/world".to_string() },
            World { name: "SMP".to_string(), path: "/srv/other".to_string() },
        ],
        chat_bridge: 100,
        info_channel: 200,
        embed_opts: EmbedOpts {
            colour: "#FF5555".to_string(),
            footer_text: "footer".to_string(),
            footer_icon_url: "https://example.org/i.png".to_string(),
        },
    }
}

#[test]
fn world_path_is_that_of_the_first_world_of_the_name() {
    let c = config();
    assert_eq!(c.get_world_path("SMP"), Some("/srv/smp/world".to_string()));
    assert_eq!(c.get_world_path("CMP"), Some("/srv/cmp/world".to_string()));
    assert_eq!(c.get_world_path("smp"), None);
    assert_eq!(c.get_world_path(""), None);
}

#[test]
fn staff_are_those_listed() {
    let c = config();
    assert!(c.is_staff(11));
    assert!(c.is_staff(22));
    assert!(!c.is_staff(33));
}

#[test]
fn colour_is_the_number_behind_the_first_character() {
    let mut opts = config().embed_opts;
    assert_eq!(opts.colour_value(), Some(0xFF5555));
    opts.colour = "#36393f".to_string();
    assert_eq!(opts.colour_value(), Some(0x36393F));
    opts.colour = "x0".to_string();
    assert_eq!(opts.colour_value(), Some(0));
    opts.colour = "#".to_string();
    assert_eq!(opts.colour_value(), None);
    opts.colour = "".to_string();
    assert_eq!(opts.colour_value(), None);
    opts.colour = "#12345G".to_string();
    assert_eq!(opts.colour_value(), None);
}

#[test]
fn hex_is_read_as_std_reads_it() {
    for s in [
        "", "+", "-", "0", "+0", "-0", "ff", "FF", "+fF", "++1", "1+", " 1", "1 ", "g", "0x10",
        "ffffffff", "100000000", "0000000000000001", "fffffffff", "123456789abcdef0123", "\u{ff11}",
    ] {
        assert_eq!(parse_hex(s), u32::from_str_radix(s, 16).ok(), "{:?}", s);
    }
}
