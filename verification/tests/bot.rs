use shaobot::bot::{
    failure_reply, honor_reply, may_reload_prompt, parse_command, poke_reply, roll_poke_reply,
    route_group_message, sender_label, BotCommand, GroupRoute, PokeDecision, PokeManager, BOT_QQ,
    OWNER_QQ,
};
use shaobot::sensitive::{check_mingan, mingan_in_readings};

const POKE_LINES: [&str; 4] = ["你戳到我寄吧了", "想要了是吧🥵", "操死你😍", "我喜欢你❤"];

#[test]
fn mention_of_bot_is_a_question() {
    assert_eq!(route_group_message(Some("3932504152"), false, "hi"), GroupRoute::Chat);
    assert_eq!(route_group_message(Some("3932504152"), true, "/help"), GroupRoute::Chat);
}

#[test]
fn mention_of_someone_else_is_not_a_question() {
    assert_eq!(route_group_message(Some("12345"), false, "hi"), GroupRoute::Ignore);
    assert_eq!(route_group_message(Some("12345"), true, "/help"), GroupRoute::Command);
}

#[test]
fn slash_text_is_a_command() {
    assert_eq!(route_group_message(None, true, "/help"), GroupRoute::Command);
    assert_eq!(route_group_message(None, false, "/help"), GroupRoute::Ignore);
    assert_eq!(route_group_message(None, true, "help"), GroupRoute::Ignore);
    assert_eq!(route_group_message(None, true, ""), GroupRoute::Ignore);
}

#[test]
fn commands_have_two_names() {
    assert_eq!(parse_command("/help"), Some(BotCommand::Help));
    assert_eq!(parse_command("/帮助"), Some(BotCommand::Help));
    assert_eq!(parse_command("/prompt_list"), Some(BotCommand::PromptList));
    assert_eq!(parse_command("/提示词列表"), Some(BotCommand::PromptList));
    assert_eq!(parse_command("/usage"), Some(BotCommand::Usage));
    assert_eq!(parse_command("/查看占用"), Some(BotCommand::Usage));
    assert_eq!(parse_command("/about"), Some(BotCommand::About));
    assert_eq!(parse_command("/关于"), Some(BotCommand::About));
    assert_eq!(parse_command("/clear"), Some(BotCommand::Clear));
    assert_eq!(parse_command("/清除对话"), Some(BotCommand::Clear));
    assert_eq!(parse_command("/reload_prompt"), Some(BotCommand::ReloadPrompt));
    assert_eq!(parse_command("/重载提示词"), Some(BotCommand::ReloadPrompt));
}

#[test]
fn unknown_commands_are_none() {
    assert_eq!(parse_command("/helpme"), None);
    assert_eq!(parse_command("/ help"), None);
    assert_eq!(parse_command("/"), None);
}

#[test]
fn command_name_follows_first_character() {
    assert_eq!(parse_command("!help"), Some(BotCommand::Help));
    assert_eq!(parse_command("xhelp"), Some(BotCommand::Help));
    assert_eq!(parse_command("xhelpx"), None);
}

#[test]
fn only_owner_reloads_prompt() {
    assert!(may_reload_prompt(OWNER_QQ));
    assert!(may_reload_prompt(1069743308));
    assert!(!may_reload_prompt(BOT_QQ));
}

#[test]
fn poke_reply_picks_line() {
    for pick in 0..4u32 {
        assert_eq!(poke_reply(BOT_QQ, 0, pick), Some(POKE_LINES[pick as usize]));
        assert_eq!(poke_reply(BOT_QQ, 49, pick), Some(POKE_LINES[pick as usize]));
        assert_eq!(poke_reply(BOT_QQ, 50, pick), None);
        assert_eq!(poke_reply(BOT_QQ, 100, pick), None);
        assert_eq!(poke_reply(42, 0, pick), None);
    }
}

#[test]
fn rolled_poke_reply_is_one_of_the_lines() {
    let mut seen_some = false;
    for _ in 0..200 {
        let outcome = roll_poke_reply(BOT_QQ);
        if let Some(line) = outcome.reply {
            assert!(POKE_LINES.contains(&line));
            seen_some = true;
        }
        if let Some(d) = outcome.draws {
            assert_eq!((d.roll.low, d.roll.high), (0, 100));
            assert!(d.roll.value <= 100);
            match d.pick {
                Some(p) => {
                    assert!(d.roll.value < 50);
                    assert_eq!((p.low, p.high), (0, 3));
                    assert_eq!(outcome.reply, Some(POKE_LINES[p.value as usize]));
                }
                None => {
                    assert!(d.roll.value >= 50);
                    assert_eq!(outcome.reply, None);
                }
            }
        }
        let other = roll_poke_reply(7);
        assert!(other.reply.is_none() && other.draws.is_none());
    }
    assert!(seen_some);
}

#[test]
fn talkative_honor_gets_a_line() {
    assert_eq!(honor_reply("talkative"), Some("🐉王喷个水💧看看👀"));
    assert_eq!(honor_reply("performer"), None);
    assert_eq!(honor_reply(""), None);
}

#[test]
fn sender_label_formats_name_and_number() {
    assert_eq!(sender_label("小明", 1069743308), "NAME: 小明(QQ_ID: 1069743308)");
    assert_eq!(sender_label("", -5), "NAME: (QQ_ID: -5)");
    assert_eq!(sender_label("a", 0), "NAME: a(QQ_ID: 0)");
}

#[test]
fn failure_reply_appends_error() {
    assert_eq!(failure_reply("boom"), "我错了跌: \nboom");
}

#[test]
fn poke_cancels_pending_answer() {
    let mut m = PokeManager::new();
    m.start(77);
    assert!(m.is_pending(77));
    assert_eq!(m.decide_poke(10, 20, BOT_QQ, 10, 20, 77), PokeDecision::Cancel);
    assert_eq!(m.decide_poke(11, 20, BOT_QQ, 10, 20, 77), PokeDecision::KeepWaiting);
    assert_eq!(m.decide_poke(10, 21, BOT_QQ, 10, 20, 77), PokeDecision::KeepWaiting);
    assert_eq!(m.decide_poke(10, 20, 5, 10, 20, 77), PokeDecision::KeepWaiting);
}

#[test]
fn finished_answer_cannot_be_cancelled() {
    let mut m = PokeManager::new();
    m.start(77);
    m.start(78);
    m.start(77);
    m.finish(77);
    assert!(!m.is_pending(77));
    assert!(m.is_pending(78));
    assert_eq!(m.decide_poke(10, 20, BOT_QQ, 10, 20, 77), PokeDecision::Stop);
    assert_eq!(m.decide_poke(10, 20, BOT_QQ, 10, 20, 78), PokeDecision::Cancel);
}

#[test]
fn mingan_phrase_is_detected() {
    assert!(check_mingan("白登骑自行车摔倒"));
    assert!(check_mingan("  白登骑自行车摔倒了吗"));
}

#[test]
fn plain_text_is_not_mingan() {
    assert!(!check_mingan("今天天气很好"));
    assert!(!check_mingan("bai deng qi zi xing che shuai dao"));
    assert!(!check_mingan(""));
}

#[test]
fn pinyin_is_read_per_character() {
    assert!(!check_mingan("白登骑自行"));
    assert!(check_mingan("白a登b骑c自d行e车f摔g倒"));
}

#[test]
fn sender_label_handles_extreme_numbers() {
    assert_eq!(sender_label("m", i64::MIN), "NAME: m(QQ_ID: -9223372036854775808)");
    assert_eq!(sender_label("m", i64::MAX), "NAME: m(QQ_ID: 9223372036854775807)");
    assert_eq!(sender_label("m", 10), "NAME: m(QQ_ID: 10)");
}

#[test]
fn mingan_ignores_unreadable_chars_and_same_readings() {
    assert!(check_mingan("白登🙂骑 自行,车摔123倒"));
    assert!(check_mingan("百登骑自行车摔倒"));
    assert_eq!(check_mingan("今天x天气"), check_mingan("今天天气"));
}

#[test]
fn mingan_in_readings_reads_the_line() {
    let r = |v: &[Option<&str>]| -> Vec<Option<String>> { v.iter().map(|o| o.map(|s| s.to_string())).collect() };
    let hit = r(&[Some("bai"), Some("deng"), None, Some("qi"), Some("zi"), Some("xing"), Some("che"), Some("shuai"), Some("dao")]);
    assert!(mingan_in_readings(&hit));
    assert!(!mingan_in_readings(&r(&[Some("bai"), Some("deng")])));
    assert!(!mingan_in_readings(&r(&[])));
}
