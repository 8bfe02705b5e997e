use slackbot::{CommandHandler, EchoHandler, OutboundMessage, Sender, SlackBot, User};

/// A handler that replies with a fixed message, ignoring the arguments.
struct FixedReply(&'static str);

impl CommandHandler for FixedReply {
    fn handle(&mut self, sender: &mut Sender, _args: &Vec<String>) {
        sender.respond_in_channel(self.0).unwrap();
    }
}

fn user(id: &str, name: &str) -> User {
    User { id: id.to_owned(), name: name.to_owned() }
}

fn directory() -> Vec<User> {
    vec![user("U123", "alice"), user("U456", "bob")]
}

fn raw_message(text: &str) -> String {
    format!(
        "{{\"type\":\"message\",\"text\":\"{}\",\"user\":\"U123\",\"channel\":\"C456\"}}",
        text
    )
}

fn dispatch(bot: &mut SlackBot<FixedReply>, text: &str) -> Vec<OutboundMessage> {
    bot.on_event(&raw_message(text), &directory())
}

#[test]
fn registered_handler_is_invoked() {
    let mut bot = SlackBot::new("bot".to_owned(), "TOKEN".to_owned());
    bot.on("greet".to_owned(), FixedReply("hello!"));
    let replies = dispatch(&mut bot, "!bot greet");
    assert_eq!(replies.len(), 1);
    assert_eq!(replies[0].channel_id, "C456");
    assert_eq!(replies[0].text, "hello!");
}

#[test]
fn second_registration_wins() {
    let mut bot = SlackBot::new("bot".to_owned(), "TOKEN".to_owned());
    bot.on("greet".to_owned(), FixedReply("first"));
    bot.on("greet".to_owned(), FixedReply("second"));
    let replies = dispatch(&mut bot, "!bot greet");
    assert_eq!(replies.len(), 1);
    assert_eq!(replies[0].text, "second");
}

#[test]
fn unknown_command_is_ignored() {
    let mut bot = SlackBot::new("bot".to_owned(), "TOKEN".to_owned());
    bot.on("greet".to_owned(), FixedReply("hello!"));
    let replies = dispatch(&mut bot, "!bot unregistered");
    assert!(replies.is_empty());
}

#[test]
fn unknown_sender_is_ignored() {
    let mut bot = SlackBot::new("bot".to_owned(), "TOKEN".to_owned());
    bot.on("greet".to_owned(), FixedReply("hello!"));
    let raw = "{\"type\":\"message\",\"text\":\"!bot greet\",\"user\":\"U999\",\"channel\":\"C456\"}";
    let replies = bot.on_event(raw, &directory());
    assert!(replies.is_empty());
}

#[test]
fn non_message_event_is_ignored() {
    let mut bot = SlackBot::new("bot".to_owned(), "TOKEN".to_owned());
    bot.on("greet".to_owned(), FixedReply("hello!"));
    let raw = "{\"type\":\"user_typing\",\"text\":\"!bot greet\",\"user\":\"U123\",\"channel\":\"C456\"}";
    let replies = bot.on_event(raw, &directory());
    assert!(replies.is_empty());
}

#[test]
fn malformed_payload_is_ignored() {
    let mut bot = SlackBot::new("bot".to_owned(), "TOKEN".to_owned());
    bot.on("greet".to_owned(), FixedReply("hello!"));
    let replies = bot.on_event("][ not json", &directory());
    assert!(replies.is_empty());
}

#[test]
fn reply_targets_origin_channel_whatever_the_content() {
    let mut bot = SlackBot::new("bot".to_owned(), "TOKEN".to_owned());
    // The reply's content looks like a channel id; it must still go to
    // the channel the command came from.
    bot.on("greet".to_owned(), FixedReply("C999"));
    let raw = "{\"type\":\"message\",\"text\":\"!bot greet\",\"user\":\"U123\",\"channel\":\"C42\"}";
    let replies = bot.on_event(raw, &directory());
    assert_eq!(replies.len(), 1);
    assert_eq!(replies[0].channel_id, "C42");
    assert_eq!(replies[0].text, "C999");
}

#[test]
fn help_command_is_dispatched_for_bare_prefix() {
    let mut bot = SlackBot::new("bot".to_owned(), "TOKEN".to_owned());
    bot.on("help".to_owned(), FixedReply("usage: !bot <command>"));
    let replies = dispatch(&mut bot, "!bot");
    assert_eq!(replies.len(), 1);
    assert_eq!(replies[0].text, "usage: !bot <command>");
}

#[test]
fn echo_handler_joins_arguments() {
    let mut bot = SlackBot::new("bot".to_owned(), "TOKEN".to_owned());
    bot.on("echo".to_owned(), EchoHandler);
    let replies = bot.on_event(&raw_message("!bot echo Hello world!"), &directory());
    assert_eq!(replies.len(), 1);
    assert_eq!(replies[0].text, "Hello world!");
    assert_eq!(replies[0].channel_id, "C456");
}

#[test]
fn echo_handler_echoes_thrice_without_arguments() {
    let mut bot = SlackBot::new("bot".to_owned(), "TOKEN".to_owned());
    bot.on("echo".to_owned(), EchoHandler);
    let replies = bot.on_event(&raw_message("!bot echo"), &directory());
    assert_eq!(replies.len(), 1);
    assert_eq!(replies[0].text, "echo echo echo");
}

#[test]
fn lookup_finds_latest_registration_only() {
    let mut bot = SlackBot::new("bot".to_owned(), "TOKEN".to_owned());
    assert!(bot.lookup("greet").is_none());
    bot.on("greet".to_owned(), FixedReply("first"));
    bot.on("greet".to_owned(), FixedReply("second"));
    assert_eq!(bot.lookup("greet").unwrap().0, "second");
    assert!(bot.lookup("Greet").is_none());
}

#[test]
fn bot_keeps_name_and_token() {
    let bot: SlackBot<FixedReply> = SlackBot::new("bot".to_owned(), "XYZZY-TOKEN".to_owned());
    assert_eq!(bot.name().as_str(), "bot");
    assert_eq!(bot.token().as_str(), "XYZZY-TOKEN");
}
