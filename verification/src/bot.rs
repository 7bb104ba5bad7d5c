use vstd::prelude::*;
use vstd::string::StringExecFns;

use crate::random::{draw, seeded_rng, Draw};
use crate::text::{decimal, decimal_string};

verus! {

/// The bot's own QQ number.
pub const BOT_QQ: i64 = 3932504152;

/// The QQ number of the one member allowed to reload the prompt.
pub const OWNER_QQ: i64 = 1069743308;

/// The characters of an optional string slice.
pub open spec fn opt_str(s: Option<&str>) -> Option<Seq<char>> {
    match s {
        Some(t) => Some(t@),
        None => None,
    }
}

/// The bot's number as a mention carries it.
pub open spec fn bot_mention() -> Seq<char> {
    decimal(BOT_QQ as int)
}

/// Whether `text` asks for a command: it begins with a slash.
pub open spec fn is_command_text(text: Seq<char>) -> bool {
    text.len() > 0 && text[0] == '/'
}

/// What the bot does with a group message.
#[derive(PartialEq, Eq, Structural, Debug, Clone, Copy)]
pub enum GroupRoute {
    /// The message mentions the bot: it is a question for the model.
    Chat,
    /// The message is a slash command.
    Command,
    /// Nothing for the bot.
    Ignore,
}

/// Where a group message goes, given the number of its first mention (if
/// any), whether it begins with text, and its text.
pub open spec fn route_of(first_at: Option<Seq<char>>, starts_with_text: bool, text: Seq<char>) -> GroupRoute {
    if first_at == Some(bot_mention()) {
        GroupRoute::Chat
    } else if starts_with_text && is_command_text(text) {
        GroupRoute::Command
    } else {
        GroupRoute::Ignore
    }
}

/// Whether `text` begins with a slash.
fn starts_with_slash(text: &str) -> (b: bool)
    ensures
        b == is_command_text(text@),
{
    let n = text.unicode_len();
    n > 0 && text.get_char(0) == '/'
}

/// Routes a group message: a mention of the bot (the first mention of the
/// message) makes it a question for the model; otherwise a message that
/// begins with text starting with a slash is a command; anything else is ignored.
pub fn route_group_message(first_at_qq: Option<&str>, starts_with_text: bool, text: &str) -> (r:
    GroupRoute)
    ensures
        r == route_of(opt_str(first_at_qq), starts_with_text, text@),
{
    if let Some(qq) = first_at_qq {
        let bot = decimal_string(BOT_QQ);
        if qq.to_string() == bot {
            return GroupRoute::Chat;
        }
    }
    if starts_with_text && starts_with_slash(text) {
        GroupRoute::Command
    } else {
        GroupRoute::Ignore
    }
}

/// The slash commands of the bot.
#[derive(PartialEq, Eq, Structural, Debug, Clone, Copy)]
pub enum BotCommand {
    Help,
    PromptList,
    Usage,
    About,
    Clear,
    ReloadPrompt,
}

/// The command a name (the text after the slash) stands for; each has an
/// English and a Chinese name.
pub open spec fn command_named(name: Seq<char>) -> Option<BotCommand> {
    if name == "help"@ || name == "帮助"@ {
        Some(BotCommand::Help)
    } else if name == "prompt_list"@ || name == "提示词列表"@ {
        Some(BotCommand::PromptList)
    } else if name == "usage"@ || name == "查看占用"@ {
        Some(BotCommand::Usage)
    } else if name == "about"@ || name == "关于"@ {
        Some(BotCommand::About)
    } else if name == "clear"@ || name == "清除对话"@ {
        Some(BotCommand::Clear)
    } else if name == "reload_prompt"@ || name == "重载提示词"@ {
        Some(BotCommand::ReloadPrompt)
    } else {
        None
    }
}

/// Whether the first character of `text` is a one-byte (ASCII) character,
/// so that the text after it starts at byte 1.
pub open spec fn starts_with_one_byte_char(text: Seq<char>) -> bool {
    text.len() > 0 && (text[0] as u32) < 0x80
}

/// The command a command text asks for: the text after its first character
/// (the slash, for the texts routing hands over), when it is one of the
/// command names; `None` for any other text.
pub fn parse_command(text: &str) -> (c: Option<BotCommand>)
    requires
        starts_with_one_byte_char(text@),
    ensures
        c == command_named(text@.drop_first()),
{
    let n = text.unicode_len();
    let name = text.substring_char(1, n).to_string();
    assert(name@ == text@.drop_first());
    if name == "help".to_string() || name == "帮助".to_string() {
        Some(BotCommand::Help)
    } else if name == "prompt_list".to_string() || name == "提示词列表".to_string() {
        Some(BotCommand::PromptList)
    } else if name == "usage".to_string() || name == "查看占用".to_string() {
        Some(BotCommand::Usage)
    } else if name == "about".to_string() || name == "关于".to_string() {
        Some(BotCommand::About)
    } else if name == "clear".to_string() || name == "清除对话".to_string() {
        Some(BotCommand::Clear)
    } else if name == "reload_prompt".to_string() || name == "重载提示词".to_string() {
        Some(BotCommand::ReloadPrompt)
    } else {
        None
    }
}

/// Whether the member `user_id` may reload the prompt: only the owner may.
pub fn may_reload_prompt(user_id: i64) -> (b: bool)
    ensures
        b == (user_id == OWNER_QQ),
{
    user_id == OWNER_QQ
}

/// The lines the bot answers a poke with.
pub open spec fn poke_line(i: int) -> Seq<char> {
    if i == 0 {
        "你戳到我寄吧了"@
    } else if i == 1 {
        "想要了是吧🥵"@
    } else if i == 2 {
        "操死你😍"@
    } else {
        "我喜欢你❤"@
    }
}

/// The highest roll of a poke; rolls run from 0 up to it.
pub const POKE_ROLL_MAX: u32 = 100;

/// Rolls below this get an answer.
pub const POKE_ANSWER_BELOW: u32 = 50;

/// The highest pick of a poke line; picks run from 0 up to it.
pub const POKE_PICK_MAX: u32 = 3;

/// The answer to a poke aimed at `target_id`, given the roll and the pick.
pub open spec fn poke_answer(target_id: i64, roll: u32, pick: u32) -> Option<Seq<char>> {
    if target_id == BOT_QQ && roll < POKE_ANSWER_BELOW {
        Some(poke_line(pick as int))
    } else {
        None
    }
}

/// The answer to a poke aimed at `target_id`, given a roll in `0..=100` and a
/// pick in `0..=3`: the picked line when the bot was poked and the roll is
/// below 50, nothing otherwise.
pub fn poke_reply(target_id: i64, roll: u32, pick: u32) -> (r: Option<&'static str>)
    requires
        pick <= POKE_PICK_MAX,
    ensures
        opt_str(r) == poke_answer(target_id, roll, pick),
{
    if target_id == BOT_QQ && roll < POKE_ANSWER_BELOW {
        let s = if pick == 0 {
            "你戳到我寄吧了"
        } else if pick == 1 {
            "想要了是吧🥵"
        } else if pick == 2 {
            "操死你😍"
        } else {
            "我喜欢你❤"
        };
        Some(s)
    } else {
        None
    }
}

/// The draws behind a poke answer: the roll, and the pick when the roll was
/// low enough for one.
pub struct PokeDraws {
    pub roll: Draw,
    pub pick: Option<Draw>,
}

/// What came of a poke: the answer, and the draws it was decided by, when
/// any were made.
pub struct PokeOutcome {
    pub reply: Option<&'static str>,
    pub draws: Option<PokeDraws>,
}

/// The draws are made as a poke of the bot needs them: a roll in
/// `0..=POKE_ROLL_MAX`, then, only when the roll is below `POKE_ANSWER_BELOW`,
/// a pick in `0..=POKE_PICK_MAX`.
pub open spec fn poke_draws_well_made(d: PokeDraws) -> bool {
    &&& d.roll.range_low() == 0
    &&& d.roll.range_high() == POKE_ROLL_MAX
    &&& d.roll.range_low() <= d.roll.drawn_value() <= d.roll.range_high()
    &&& (d.pick is Some <==> d.roll.drawn_value() < POKE_ANSWER_BELOW)
    &&& d.pick matches Some(p) ==> {
        &&& p.range_low() == 0
        &&& p.range_high() == POKE_PICK_MAX
        &&& p.range_low() <= p.drawn_value() <= p.range_high()
    }
}

/// The answer the draws give to a poke aimed at `target_id`.
pub open spec fn answer_of_draws(target_id: i64, d: PokeDraws) -> Option<Seq<char>> {
    match d.pick {
        Some(p) => poke_answer(target_id, d.roll.drawn_value(), p.drawn_value()),
        None => None,
    }
}

/// The answer to a poke aimed at `target_id`, drawn at random: when the bot
/// is poked, a roll in `0..=100` below 50 picks one of the four lines at
/// random; otherwise nothing. No draw, and no answer, when the system gives no
/// entropy to seed the draws. The outcome carries the draws and their ranges.
pub fn roll_poke_reply(target_id: i64) -> (o: PokeOutcome)
    ensures
        target_id != BOT_QQ ==> o.draws is None,
        o.draws is None ==> o.reply is None,
        o.draws matches Some(d) ==> {
            &&& target_id == BOT_QQ
            &&& poke_draws_well_made(d)
            &&& opt_str(o.reply) == answer_of_draws(target_id, d)
        },
        o.reply matches Some(s) ==> exists|i: int| 0 <= i < 4 && s@ == #[trigger] poke_line(i),
{
    if target_id != BOT_QQ {
        return PokeOutcome { reply: None, draws: None };
    }
    let mut rng = match seeded_rng() {
        Some(rng) => rng,
        None => return PokeOutcome { reply: None, draws: None },
    };
    let roll = draw(&mut rng, 0, POKE_ROLL_MAX);
    if roll.value() < POKE_ANSWER_BELOW {
        let pick = draw(&mut rng, 0, POKE_PICK_MAX);
        let reply = poke_reply(target_id, roll.value(), pick.value());
        assert(reply matches Some(s) ==> s@ == poke_line(pick.drawn_value() as int));
        PokeOutcome { reply, draws: Some(PokeDraws { roll, pick: Some(pick) }) }
    } else {
        PokeOutcome { reply: None, draws: Some(PokeDraws { roll, pick: None }) }
    }
}

/// The line for the talkative-honor notice.
pub open spec fn talkative_line() -> Seq<char> {
    "🐉王喷个水💧看看👀"@
}

/// The answer to an honor notice: a line for the talkative honor, nothing
/// for any other.
pub fn honor_reply(honor_type: &str) -> (r: Option<&'static str>)
    ensures
        r is Some <==> honor_type@ == "talkative"@,
        r matches Some(s) ==> s@ == talkative_line(),
{
    if honor_type.to_string() == "talkative".to_string() {
        Some("🐉王喷个水💧看看👀")
    } else {
        None
    }
}

/// How a member is introduced to the model.
pub open spec fn sender_label_of(nickname: Seq<char>, user_id: i64) -> Seq<char> {
    "NAME: "@ + nickname + "(QQ_ID: "@ + decimal(user_id as int) + ")"@
}

/// The name under which a member's question goes to the model:
/// `NAME: <nickname>(QQ_ID: <number>)`.
pub fn sender_label(nickname: &str, user_id: i64) -> (s: String)
    ensures
        s@ == sender_label_of(nickname@, user_id),
{
    let mut s = "NAME: ".to_string();
    s.append(nickname);
    s.append("(QQ_ID: ");
    let id = decimal_string(user_id);
    s.append(id.as_str());
    s.append(")");
    s
}

/// The reply when the model could not be reached: a fixed apology, a line
/// break, then the error text.
pub fn failure_reply(error: &str) -> (s: String)
    ensures
        s@ == "我错了跌: \n"@ + error@,
{
    let mut s = "我错了跌: \n".to_string();
    s.append(error);
    s
}

/// What the bot does with a poke that arrives while a question is being answered.
#[derive(PartialEq, Eq, Structural, Debug, Clone, Copy)]
pub enum PokeDecision {
    /// The poke is not the asker poking the bot in that group: keep waiting.
    KeepWaiting,
    /// The asker poked the bot, but the answer is already done: stop waiting.
    Stop,
    /// The asker poked the bot while the answer is pending: cancel it.
    Cancel,
}

/// The message ids of the questions whose answers are still being worked on.
pub struct PokeManager {
    pending: Vec<i32>,
}

impl View for PokeManager {
    type V = Seq<i32>;

    closed spec fn view(&self) -> Seq<i32> {
        self.pending@
    }
}

/// What to do with a poke from `poke_user` in `poke_group` aimed at
/// `poke_target`, for the question `message_id` that `sender` asked in `group`,
/// while `pending` are the questions not yet answered.
pub open spec fn poke_decision(
    pending: Seq<i32>,
    poke_group: i64,
    poke_user: i64,
    poke_target: i64,
    group: i64,
    sender: i64,
    message_id: i32,
) -> PokeDecision {
    if poke_group == group && poke_user == sender && poke_target == BOT_QQ {
        if pending.contains(message_id) {
            PokeDecision::Cancel
        } else {
            PokeDecision::Stop
        }
    } else {
        PokeDecision::KeepWaiting
    }
}

/// Holds of every id but `id`.
pub open spec fn other_than(id: i32) -> spec_fn(i32) -> bool {
    |x: i32| x != id
}

impl PokeManager {
    /// No question pending.
    pub fn new() -> (m: Self)
        ensures
            m@ == Seq::<i32>::empty(),
    {
        PokeManager { pending: Vec::new() }
    }

    /// The question `message_id` is being answered.
    pub fn start(&mut self, message_id: i32)
        ensures
            final(self)@ == old(self)@.push(message_id),
    {
        self.pending.push(message_id);
    }

    /// The question `message_id` is answered: every entry of it goes, the
    /// others stay in order.
    pub fn finish(&mut self, message_id: i32)
        ensures
            final(self)@ == old(self)@.filter(other_than(message_id)),
    {
        let ghost keep = other_than(message_id);
        let mut kept: Vec<i32> = Vec::new();
        let n = self.pending.len();
        for i in 0..n
            invariant
                n == self.pending@.len(),
                keep == other_than(message_id),
                kept@ == self.pending@.take(i as int).filter(keep),
        {
            let x = self.pending[i];
            if x != message_id {
                kept.push(x);
            }
            proof {
                let t = self.pending@.take(i + 1);
                assert(t.drop_last() =~= self.pending@.take(i as int));
                assert(t.last() == x);
                reveal_with_fuel(Seq::<_>::filter, 1);
                assert(t.filter(keep) == (if keep(x) {
                    t.drop_last().filter(keep).push(x)
                } else {
                    t.drop_last().filter(keep)
                }));
            }
        }
        assert(self.pending@.take(n as int) =~= self.pending@);
        self.pending = kept;
    }

    /// Whether the question `message_id` is still being answered.
    pub fn is_pending(&self, message_id: i32) -> (b: bool)
        ensures
            b == self@.contains(message_id),
    {
        let n = self.pending.len();
        for i in 0..n
            invariant
                n == self.pending@.len(),
                forall|k: int| 0 <= k < i ==> self.pending@[k] != message_id,
        {
            if self.pending[i] == message_id {
                return true;
            }
        }
        false
    }

    /// What to do with a poke from `poke_user` in `poke_group` aimed at
    /// `poke_target`, for the question `message_id` that `sender` asked in `group`.
    pub fn decide_poke(
        &self,
        poke_group: i64,
        poke_user: i64,
        poke_target: i64,
        group: i64,
        sender: i64,
        message_id: i32,
    ) -> (d: PokeDecision)
        ensures
            d == poke_decision(self@, poke_group, poke_user, poke_target, group, sender, message_id),
    {
        if poke_group == group && poke_user == sender && poke_target == BOT_QQ {
            if self.is_pending(message_id) {
                PokeDecision::Cancel
            } else {
                PokeDecision::Stop
            }
        } else {
            PokeDecision::KeepWaiting
        }
    }
}

/// While a question is pending, the asker poking the bot in its group cancels
/// the answer; once the answer is finished, the same poke only ends the wait.
pub proof fn law_poke_cancels_only_pending(pending: Seq<i32>, group: i64, sender: i64, message_id: i32)
    ensures
        poke_decision(pending.push(message_id), group, sender, BOT_QQ, group, sender, message_id)
            == PokeDecision::Cancel,
        poke_decision(
            pending.push(message_id).filter(other_than(message_id)),
            group,
            sender,
            BOT_QQ,
            group,
            sender,
            message_id,
        ) == PokeDecision::Stop,
{
    let p = pending.push(message_id);
    assert(p[p.len() - 1] == message_id);
    assert(!p.filter(other_than(message_id)).contains(message_id)) by {
        if p.filter(other_than(message_id)).contains(message_id) {
            let k = choose|k: int|
                0 <= k < p.filter(other_than(message_id)).len() && p.filter(
                    other_than(message_id),
                )[k] == message_id;
            p.lemma_filter_pred(other_than(message_id), k);
        }
    }
}

/// Finishing one question leaves every other pending question pending.
pub proof fn law_finish_keeps_others(pending: Seq<i32>, message_id: i32, other: i32)
    requires
        other != message_id,
    ensures
        pending.filter(other_than(message_id)).contains(other) == pending.contains(other),
{
    if pending.contains(other) {
        let k = choose|k: int| 0 <= k < pending.len() && pending[k] == other;
        pending.lemma_filter_contains(other_than(message_id), k);
    }
    if pending.filter(other_than(message_id)).contains(other) {
        pending.lemma_filter_contains_rev(other_than(message_id), other);
    }
}

/// A poke counts only when it is the asker poking the bot in the group of
/// the question: a poke by anyone else, in another group, or aimed at anyone
/// else leaves the wait as it is.
pub proof fn law_only_the_askers_poke_counts(
    pending: Seq<i32>,
    poke_group: i64,
    poke_user: i64,
    poke_target: i64,
    group: i64,
    sender: i64,
    message_id: i32,
)
    requires
        poke_group != group || poke_user != sender || poke_target != BOT_QQ,
    ensures
        poke_decision(pending, poke_group, poke_user, poke_target, group, sender, message_id)
            == PokeDecision::KeepWaiting,
{
}

/// The asker poking the bot in the group of the question ends the wait: it
/// cancels the answer exactly while the question is pending.
pub proof fn law_askers_poke_cancels_iff_pending(
    pending: Seq<i32>,
    group: i64,
    sender: i64,
    message_id: i32,
)
    ensures
        poke_decision(pending, group, sender, BOT_QQ, group, sender, message_id)
            != PokeDecision::KeepWaiting,
        (poke_decision(pending, group, sender, BOT_QQ, group, sender, message_id)
            == PokeDecision::Cancel) == pending.contains(message_id),
{
}

/// A message is a question for the model exactly when its first mention is
/// the bot's number written in decimal.
pub proof fn law_route_chat_iff_bot_mentioned(
    first_at: Option<Seq<char>>,
    starts_with_text: bool,
    text: Seq<char>,
)
    ensures
        (route_of(first_at, starts_with_text, text) == GroupRoute::Chat) <==> first_at == Some(
            decimal(BOT_QQ as int),
        ),
{
}

/// A message is a command exactly when it does not mention the bot first,
/// begins with text, and that text has a slash as its very first character;
/// a slash anywhere else does not make a command.
pub proof fn law_route_command_iff_leading_slash(
    first_at: Option<Seq<char>>,
    starts_with_text: bool,
    text: Seq<char>,
)
    ensures
        (route_of(first_at, starts_with_text, text) == GroupRoute::Command) <==> (first_at
            != Some(decimal(BOT_QQ as int)) && starts_with_text && text.len() > 0 && text[0]
            == '/'),
        text.len() > 0 && text[0] != '/' ==> route_of(first_at, starts_with_text, text)
            != GroupRoute::Command,
{
}

/// The name a member is introduced by is laid out as `NAME: `, the whole
/// nickname, `(QQ_ID: `, the number in decimal, and `)`.
pub proof fn law_sender_label_layout(nickname: Seq<char>, user_id: i64)
    ensures
        ({
            let s = sender_label_of(nickname, user_id);
            let n = nickname.len() as int;
            let d = decimal(user_id as int).len() as int;
            &&& s.len() == 6 + n + 8 + d + 1
            &&& s.take(6) == "NAME: "@
            &&& s.subrange(6, 6 + n) == nickname
            &&& s.subrange(6 + n, 14 + n) == "(QQ_ID: "@
            &&& s.subrange(14 + n, 14 + n + d) == decimal(user_id as int)
            &&& s[14 + n + d] == ')'
        }),
{
    reveal_strlit("NAME: ");
    reveal_strlit("(QQ_ID: ");
    reveal_strlit(")");
    let s = sender_label_of(nickname, user_id);
    let n = nickname.len() as int;
    let d = decimal(user_id as int).len() as int;
    assert(s.take(6) =~= "NAME: "@);
    assert(s.subrange(6, 6 + n) =~= nickname);
    assert(s.subrange(6 + n, 14 + n) =~= "(QQ_ID: "@);
    assert(s.subrange(14 + n, 14 + n + d) =~= decimal(user_id as int));
}

} // verus!
