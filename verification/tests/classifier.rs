use chatlog::classify::{Classifier, CompiledShape};
use chatlog::shape::{registered_shapes, LogShape};

const TEST_SERVER_MSG: &str = "[05Jul2025 12:41:12.295] [Server thread/INFO] [net.minecraft.server.MinecraftServer/]: <ðŸˆ Vftdan> :3";
const TEST_CLIENT_LOG_MSG: &str = "[11Jul2025 20:30:20.286] [Render thread/INFO] [net.minecraft.client.gui.components.ChatComponent/]: [CHAT] <BuyMyMojo@MakeoutPoint> tehe";
const TEST_PRISM_MSG: &str = "[16:53:50] [Render thread/INFO] [minecraft/ChatComponent]: [CHAT] <smol.systems-LeNooby_09> ;3";

const RANDOM_LOG_LINES: [&str; 5] = [
    "[05Jul2025 13:08:11.886] [VoiceChatPacketProcessingThread/INFO] [voicechat/]: [voicechat] Player 399aedb6-a257-49d1-930b-af62fc328ae7 timed out",
    "[05Jul2025 13:09:19.890] [Server thread/INFO] [me.ichun.mods.serverpause.common.core.MinecraftServerMethods/]: Saving and pausing game...",
    "[05Jul2025 12:02:58.057] [Server thread/INFO] [net.minecraft.server.MinecraftServer/]: alto joined the game",
    "java.lang.NullPointerException: Cannot invoke \"net.minecraft.world.Container.getContainerSize()\" because the return value of \"net.neoforged.neoforge.items.wrapper.InvWrapper.getInv()\" is null",
    "[05Jul2025 10:31:36.112] [Server thread/INFO] [owo/]: Receiving client config",
];

const MARKED_LINE: &str = "[16:53:51] [Render thread/INFO] [some/OtherComponent]: [CHAT] server restarting";

#[test]
fn detect_server_chat_messages() {
    let classifier = Classifier::new().unwrap();
    assert!(classifier.is_possible_chat_message(TEST_SERVER_MSG));
}

#[test]
fn detect_prism_chat_messages() {
    let classifier = Classifier::new().unwrap();
    assert!(classifier.is_possible_chat_message(TEST_PRISM_MSG));
}

#[test]
fn detect_client_log_chat_messages() {
    let classifier = Classifier::new().unwrap();
    assert!(classifier.is_possible_chat_message(TEST_CLIENT_LOG_MSG));
}

#[test]
fn ignore_random_log_lines() {
    let classifier = Classifier::new().unwrap();
    let mut is_msg: bool = false;

    for line in RANDOM_LOG_LINES {
        if classifier.is_possible_chat_message(line) {
            is_msg = true;
        }
    }

    assert!(!is_msg);
}

#[test]
fn classify_names_the_shape_of_each_sample() {
    let classifier = Classifier::new().unwrap();
    assert_eq!(classifier.classify(TEST_SERVER_MSG), Some(LogShape::ServerChat));
    assert_eq!(classifier.classify(TEST_PRISM_MSG), Some(LogShape::ClientPrism));
    assert_eq!(classifier.classify(TEST_CLIENT_LOG_MSG), Some(LogShape::ClientLog));
}

#[test]
fn classify_finds_no_shape_for_noise() {
    let classifier = Classifier::new().unwrap();
    for line in RANDOM_LOG_LINES {
        assert_eq!(classifier.classify(line), None);
    }
    assert_eq!(classifier.classify(""), None);
}

#[test]
fn every_line_of_a_registered_shape_is_accepted() {
    let classifier = Classifier::new().unwrap();
    let samples = [TEST_SERVER_MSG, TEST_PRISM_MSG, TEST_CLIENT_LOG_MSG];
    for shape in registered_shapes(false) {
        let compiled = CompiledShape::new(shape).unwrap();
        assert_eq!(compiled.which_shape(), shape);
        for line in samples {
            if compiled.matches(line) {
                assert!(classifier.is_possible_chat_message(line));
                assert!(classifier.classify(line).is_some());
            }
        }
        assert!(samples.iter().any(|line| compiled.matches(line)));
    }
}

#[test]
fn the_markers_may_stand_anywhere_in_the_line() {
    let classifier = Classifier::new().unwrap();
    let line = "noise [a] [Server thread/INFO] [net.minecraft.server.MinecraftServer/]: <b";
    assert!(classifier.is_possible_chat_message(line));
}

#[test]
fn a_line_without_user_bracket_is_no_chat_message() {
    let classifier = Classifier::new().unwrap();
    let line = "[16:53:50] [Render thread/INFO] [minecraft/ChatComponent]: [CHAT] Bob joined";
    assert!(!classifier.is_possible_chat_message(line));
}

#[test]
fn catch_all_is_off_unless_asked_for() {
    let plain = Classifier::new().unwrap();
    assert!(!plain.has_catch_all());
    assert!(!plain.is_possible_chat_message(MARKED_LINE));
    assert_eq!(plain.classify(MARKED_LINE), None);

    let permissive = Classifier::with_catch_all().unwrap();
    assert!(permissive.has_catch_all());
    assert!(permissive.is_possible_chat_message(MARKED_LINE));
    assert_eq!(permissive.classify(MARKED_LINE), Some(LogShape::CatchAll));
}

#[test]
fn catch_all_comes_last_in_the_registry() {
    assert_eq!(
        registered_shapes(false),
        vec![LogShape::ServerChat, LogShape::ClientPrism, LogShape::ClientLog]
    );
    assert_eq!(
        registered_shapes(true),
        vec![LogShape::ServerChat, LogShape::ClientPrism, LogShape::ClientLog, LogShape::CatchAll]
    );
    let permissive = Classifier::with_catch_all().unwrap();
    assert_eq!(permissive.classify(TEST_PRISM_MSG), Some(LogShape::ClientPrism));
    assert_eq!(permissive.classify(TEST_CLIENT_LOG_MSG), Some(LogShape::ClientLog));
}

#[test]
fn pattern_text_is_the_pattern_of_the_shape() {
    assert_eq!(
        LogShape::ClientPrism.pattern_text(),
        r"\[.*\] \[Render thread\/INFO\] \[minecraft\/ChatComponent\]: \[CHAT\] <.*>*"
    );
    assert_eq!(LogShape::CatchAll.pattern_text(), r".*?: \[CHAT\] .*");
}
