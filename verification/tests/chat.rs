use hualib::audio::{sample_capacity, write_samples};
use hualib::chat::{
    consume_and_parse_u64, guild_ids, parse_channel_identity, parse_command, ChannelIdentity,
};
use hualib::fx::{DiscordOrigin, FxIdentity};
use hualib::interactions::intent::parse_object_id;
use hualib::interactions::{
    option_fx, CustomIDParseError, FxArgument, MessageComponentIntent, OptionValue, RandomMessage,
};
use hualib::text::{chars_of, parse_u64, trim};

fn discord() -> DiscordOrigin {
    DiscordOrigin { guild: Some(7), interaction: 11, author: Some(13), drafted_at: 1_700_000_000 }
}

fn text(value: &str) -> Option<OptionValue> {
    Some(OptionValue::String(value.to_string()))
}

#[test]
fn test_command_parser() {
    let parsed = parse_command("%switch 123123").unwrap();
    assert_eq!(parsed.command, "switch");
    assert_eq!(parsed.args, Some("123123".to_string()));
    let parsed = parse_command("%listen").unwrap();
    assert_eq!(parsed.command, "listen");
    assert_eq!(parsed.args, None);
    assert!(parse_command("hello world").is_none());
}

#[test]
fn command_parser_edges() {
    assert!(parse_command("").is_none());
    assert!(parse_command("%").is_none());
    assert!(parse_command("% use").is_none());
    let parsed = parse_command("%use \t 1 2\nnext line").unwrap();
    assert_eq!(parsed.command, "use");
    assert_eq!(parsed.args, Some("1 2".to_string()));
    let parsed = parse_command("%use ").unwrap();
    assert_eq!(parsed.args, Some(String::new()));
}

#[test]
fn test_parse_channel_identity() {
    assert_eq!(parse_channel_identity("123 123"), Some(ChannelIdentity(123, 123)));
}

#[test]
fn channel_identity_edges() {
    assert_eq!(parse_channel_identity("1 2 3"), Some(ChannelIdentity(1, 2)));
    assert_eq!(parse_channel_identity("\t1 2\n"), Some(ChannelIdentity(1, 2)));
    assert_eq!(parse_channel_identity("123"), None);
    assert_eq!(parse_channel_identity("1  2"), None);
    assert_eq!(parse_channel_identity("a 2"), None);
    assert_eq!(parse_channel_identity(""), None);
    let chars = chars_of("5 x");
    let (first, rest) = consume_and_parse_u64(Some(&chars));
    assert_eq!(first, Some(5));
    let (second, rest) = consume_and_parse_u64(rest);
    assert_eq!(second, None);
    assert!(rest.is_none());
    assert_eq!(consume_and_parse_u64(None), (None, None));
}

#[test]
fn numbers_are_read_as_the_standard_library_reads_them() {
    for input in ["0", "+7", "007", "18446744073709551615", "18446744073709551616", "", "+", "-1", "1a", " 1", "99999999999999999999999"] {
        assert_eq!(parse_u64(&chars_of(input)), input.parse::<u64>().ok(), "{:?}", input);
    }
    for input in [" a ", "\u{3000}x\u{a0}", "", "   ", "a b"] {
        let trimmed: String = trim(&chars_of(input)).iter().collect();
        assert_eq!(trimmed, input.trim(), "{:?}", input);
    }
}

#[test]
fn guild_records_without_a_number_are_passed_over() {
    let records = vec!["12".to_string(), "guild".to_string(), "34".to_string(), "".to_string()];
    assert_eq!(guild_ids(&records), vec![12, 34]);
}

#[test]
fn test_message_compoennt_intent_from_custom_id() {
    let intent = MessageComponentIntent::try_from("AAAAAAAAAAAAAAAAAAAAAAAA:create").unwrap();
    assert_eq!(intent.id, vec![0xaa; 12]);
    assert_eq!(intent.action, Some("create".to_string()));
    let intent = MessageComponentIntent::try_from("AAAAAAAAAAAAAAAAAAAAAAAA").unwrap();
    assert_eq!(intent.id, vec![0xaa; 12]);
    assert_eq!(intent.action, None);
}

#[test]
fn custom_id_edges() {
    assert!(matches!(MessageComponentIntent::try_from("xyz:create"), Err(CustomIDParseError::MalformedID)));
    assert!(matches!(MessageComponentIntent::try_from(""), Err(CustomIDParseError::MalformedID)));
    let intent = MessageComponentIntent::try_from("0123456789abcdefABCDEF00:a:b").unwrap();
    assert_eq!(intent.id, vec![0x01, 0x23, 0x45, 0x67, 0x89, 0xab, 0xcd, 0xef, 0xab, 0xcd, 0xef, 0x00]);
    assert_eq!(intent.action, Some("a:b".to_string()));
    let parsed = mongodb::bson::oid::ObjectId::parse_str("0123456789abcdefABCDEF00").unwrap();
    assert_eq!(parse_object_id(&chars_of("0123456789abcdefABCDEF00")), Some(parsed.bytes().to_vec()));
    assert!(mongodb::bson::oid::ObjectId::parse_str("0123456789abcdefABCDEF0").is_err());
    assert_eq!(parse_object_id(&chars_of("0123456789abcdefABCDEF0")), None);
}

#[test]
fn options_make_a_record() {
    let options = vec![text("meow"), text("a cat"), text("https://example.com/v"), Some(OptionValue::Integer(3)), Some(OptionValue::Integer(0))];
    let fx = option_fx(discord(), &options).unwrap();
    assert_eq!(fx.name, "meow");
    assert_eq!(fx.description, "a cat");
    assert_eq!(fx.media.url, "https://example.com/v");
    assert_eq!(fx.media.start, 3);
    assert_eq!(fx.media.length, 5);
    assert_eq!(fx.discord.interaction, 11);

    let fx = option_fx(discord(), &options[..3]).unwrap();
    assert_eq!((fx.media.start, fx.media.length), (0, 5));
    let options = vec![text("meow"), text("a cat"), text("u"), Some(OptionValue::Other), Some(OptionValue::Integer(20))];
    let fx = option_fx(discord(), &options).unwrap();
    assert_eq!((fx.media.start, fx.media.length), (0, 20));
    let options = vec![text("meow"), text("a cat"), text("u"), Some(OptionValue::Integer(-1)), None];
    let fx = option_fx(discord(), &options).unwrap();
    assert_eq!((fx.media.start, fx.media.length), (u64::MAX, 5));
}

#[test]
fn options_without_a_text_make_no_record() {
    assert!(option_fx(discord(), &[]).is_none());
    assert!(option_fx(discord(), &[text("meow"), text("a cat")]).is_none());
    assert!(option_fx(discord(), &[text("meow"), Some(OptionValue::Integer(1)), text("u")]).is_none());
    assert!(option_fx(discord(), &[None, text("a cat"), text("u")]).is_none());
    let argument = FxArgument { name: None, description: Some("d".to_string()), url: Some("u".to_string()), start: 0, length: 5, discord: discord() };
    assert!(argument.to_fx().is_none());
    let identity = FxIdentity(7, "meow".to_string());
    assert_eq!((identity.0, identity.1.as_str()), (7, "meow"));
}

#[test]
fn random_message_is_one_of_the_messages() {
    let messages = ["a", "b", "c"];
    let choice = RandomMessage::new(&messages);
    assert_eq!(choice.get(1), "b");
    let mut seen = [false; 3];
    for _ in 0..200 {
        let message = choice.next();
        let at = messages.iter().position(|m| *m == message).unwrap();
        seen[at] = true;
    }
    assert_eq!(seen, [true, true, true]);
}

#[test]
fn samples_are_written_low_byte_first() {
    let mut buf = [0xeeu8; 5];
    assert_eq!(sample_capacity(buf.len()), 2);
    assert_eq!(write_samples(&[0x1234, -2, 7], &mut buf), 4);
    assert_eq!(buf, [0x34, 0x12, 0xfe, 0xff, 0xee]);
    let mut expected = vec![];
    for sample in [0x1234i16, -2] {
        expected.extend_from_slice(&sample.to_le_bytes());
    }
    assert_eq!(&buf[..4], &expected[..]);
    let mut wide = [0u8; 8];
    assert_eq!(write_samples(&[i16::MIN], &mut wide), 2);
    assert_eq!(&wide[..2], &i16::MIN.to_le_bytes());
    assert_eq!(write_samples(&[], &mut wide), 0);
}
