use vstd::prelude::*;
use crate::text::{
    chars_of, is_white_space, lemma_trim_idempotent, str_eq, trim, trim_end_seq, trim_seq,
    trim_start_seq,
};

verus! {

/// Pause after each character of the typewriter effect, in milliseconds:
/// longest at line ends and sentence ends, shorter at clause breaks.
pub open spec fn delay_of(ch: char) -> u64 {
    if ch == '.' || ch == '!' || ch == '?' {
        55
    } else if ch == ',' || ch == ';' || ch == ':' || ch == '—' {
        28
    } else if ch == '\n' {
        60
    } else {
        13
    }
}

/// How long the typewriter effect waits after printing `ch`.
pub fn typewrite_delay_ms(ch: char) -> (ms: u64)
    ensures
        ms == delay_of(ch),
{
    match ch {
        '.' | '!' | '?' => 55,
        ',' | ';' | ':' | '—' => 28,
        '\n' => 60,
        _ => 13,
    }
}

/// Commands available from every screen.
#[derive(Debug, Clone, Copy, PartialEq, Eq, Structural)]
pub enum UniversalCommand {
    /// Show the screen's help text.
    Help,
    /// Open ARIA, the ship's AI.
    Aria,
    /// Send a note to the study notebook.
    Note,
}

/// The command a menu input names, if it is one available everywhere:
/// "?", "h" or "H" for help, "a"/"A" for ARIA, "n"/"N" for a note
/// (surrounding white space ignored).
pub open spec fn universal_of(input: Seq<char>) -> Option<UniversalCommand> {
    let t = trim_seq(input);
    if t == seq!['?'] || t == seq!['h'] || t == seq!['H'] {
        Some(UniversalCommand::Help)
    } else if t == seq!['a'] || t == seq!['A'] {
        Some(UniversalCommand::Aria)
    } else if t == seq!['n'] || t == seq!['N'] {
        Some(UniversalCommand::Note)
    } else {
        None
    }
}

/// Recognises the commands that every screen accepts.
pub fn universal_command(choice: &str) -> (r: Option<UniversalCommand>)
    ensures
        r == universal_of(choice@),
{
    let t = trim(choice);
    let v = chars_of(t.as_str());
    if v.len() != 1 {
        return None;
    }
    let c = v[0];
    proof {
        assert(v@ =~= seq![c]);
    }
    if c == '?' || c == 'h' || c == 'H' {
        Some(UniversalCommand::Help)
    } else if c == 'a' || c == 'A' {
        Some(UniversalCommand::Aria)
    } else if c == 'n' || c == 'N' {
        Some(UniversalCommand::Note)
    } else {
        None
    }
}

/// The conversation channels of the comms system.
#[derive(Debug, Clone, Copy, PartialEq, Eq, Structural)]
pub enum ChatChannel {
    /// Both companions at once.
    Group,
    /// One companion.
    Companion,
    /// ARIA, the ship's AI.
    Aria,
}

/// Commands that a conversation channel handles itself instead of sending
/// them as a message.
#[derive(Debug, Clone, Copy, PartialEq, Eq, Structural)]
pub enum ChatCommand {
    /// Leave the channel.
    Close,
    /// Forget the conversation history.
    Clear,
    /// Show the ship's readout.
    Status,
    /// Show the recent history.
    Log,
}

/// `c` is the lower-case character `w`, or its upper-case ASCII form.
pub open spec fn folds_to(c: char, w: char) -> bool {
    c == w || ('a' <= w && w <= 'z' && c as u32 == (w as u32) - 32)
}

/// `t` spells the lower-case word `w`, ignoring ASCII case.
pub open spec fn spells(t: Seq<char>, w: Seq<char>) -> bool {
    t.len() == w.len() && forall|i: int| 0 <= i < t.len() ==> folds_to(t[i], w[i])
}

/// The command that an input line names on a channel, if any: the line is
/// compared, without surrounding white space and ignoring ASCII case, with
/// the channel's command words. Every channel closes on "q", "quit" and
/// "disconnect", ARIA's also on "exit" and the others on "close"; the
/// companion and ARIA channels clear on "clear"; the companion and group
/// channels show the status on "status" or "/status" and the history on
/// "log" or "/log".
pub open spec fn chat_command_of(channel: ChatChannel, input: Seq<char>) -> Option<ChatCommand> {
    let t = trim_seq(input);
    let closes = spells(t, "q"@) || spells(t, "quit"@) || spells(t, "disconnect"@) || if channel
        == ChatChannel::Aria {
        spells(t, "exit"@)
    } else {
        spells(t, "close"@)
    };
    if closes {
        Some(ChatCommand::Close)
    } else if channel != ChatChannel::Group && spells(t, "clear"@) {
        Some(ChatCommand::Clear)
    } else if channel != ChatChannel::Aria && (spells(t, "status"@) || spells(t, "/status"@)) {
        Some(ChatCommand::Status)
    } else if channel != ChatChannel::Aria && (spells(t, "log"@) || spells(t, "/log"@)) {
        Some(ChatCommand::Log)
    } else {
        None
    }
}

/// Whether `t` spells the lower-case word `w`, ignoring ASCII case.
fn spells_word(t: &Vec<char>, w: &str) -> (r: bool)
    ensures
        r == spells(t@, w@),
{
    let wv = chars_of(w);
    if t.len() != wv.len() {
        return false;
    }
    let mut i: usize = 0;
    while i < t.len()
        invariant
            wv@ == w@,
            t@.len() == wv@.len(),
            i <= t@.len(),
            forall|j: int| 0 <= j < i ==> folds_to(t@[j], wv@[j]),
        decreases t@.len() - i,
    {
        let c = t[i];
        let d = wv[i];
        if !(c == d || ('a' <= d && d <= 'z' && c as u32 == (d as u32) - 32)) {
            return false;
        }
        i = i + 1;
    }
    true
}

/// Recognises the commands of a conversation channel; `None` means the
/// line is a message to send.
pub fn chat_command(channel: ChatChannel, input: &str) -> (r: Option<ChatCommand>)
    ensures
        r == chat_command_of(channel, input@),
{
    let ts = trim(input);
    let t = chars_of(ts.as_str());
    let is_aria = match channel {
        ChatChannel::Aria => true,
        _ => false,
    };
    let is_group = match channel {
        ChatChannel::Group => true,
        _ => false,
    };
    let closes = spells_word(&t, "q") || spells_word(&t, "quit") || spells_word(&t, "disconnect")
        || if is_aria {
        spells_word(&t, "exit")
    } else {
        spells_word(&t, "close")
    };
    if closes {
        Some(ChatCommand::Close)
    } else if !is_group && spells_word(&t, "clear") {
        Some(ChatCommand::Clear)
    } else if !is_aria && (spells_word(&t, "status") || spells_word(&t, "/status")) {
        Some(ChatCommand::Status)
    } else if !is_aria && (spells_word(&t, "log") || spells_word(&t, "/log")) {
        Some(ChatCommand::Log)
    } else {
        None
    }
}

/// What a key pressed at the main menu asks for.
#[derive(Debug, Clone, Copy, PartialEq, Eq, Structural)]
pub enum MainAction {
    /// Survey the current star system.
    Scan,
    /// Jump to another system.
    Travel,
    /// Descend to a planet surface.
    Land,
    /// Open the star chart.
    StarChart,
    /// Ship status and inventory.
    ShipStatus,
    /// The periodic table reference.
    PeriodicTable,
    /// The physics reference.
    Physics,
    /// Consult ARIA, the ship's AI.
    Aria,
    /// Fleet comms with the companions.
    Comms,
    /// Save the game.
    Save,
    /// Quit (offering to save first).
    Quit,
    /// Mine the planet the player stands on.
    Mine,
    /// Details of the planet the player stands on.
    PlanetDetails,
    /// A surface command while the ship is not landed: nothing happens.
    Idle,
    /// Not a command of the main menu.
    Unknown,
}

/// The main-menu key table: [1] scan, [2] travel, [3] land, [4] star chart,
/// [r] or [5] ship status, [6] periodic table, [7] physics, [8] or [a] ARIA, [c] comms, [s] save,
/// [q] quit; while landed also [m] mine and [p] planet details. Letters are
/// taken in either case.
pub open spec fn main_action_of(key: Seq<char>, landed: bool) -> MainAction {
    if key == seq!['1'] {
        MainAction::Scan
    } else if key == seq!['2'] {
        MainAction::Travel
    } else if key == seq!['3'] {
        MainAction::Land
    } else if key == seq!['4'] {
        MainAction::StarChart
    } else if key == seq!['r'] || key == seq!['R'] || key == seq!['5'] {
        MainAction::ShipStatus
    } else if key == seq!['6'] {
        MainAction::PeriodicTable
    } else if key == seq!['7'] {
        MainAction::Physics
    } else if key == seq!['8'] || key == seq!['a'] || key == seq!['A'] {
        MainAction::Aria
    } else if key == seq!['c'] || key == seq!['C'] {
        MainAction::Comms
    } else if key == seq!['s'] || key == seq!['S'] {
        MainAction::Save
    } else if key == seq!['q'] || key == seq!['Q'] {
        MainAction::Quit
    } else if key == seq!['m'] || key == seq!['M'] {
        if landed {
            MainAction::Mine
        } else {
            MainAction::Idle
        }
    } else if key == seq!['p'] || key == seq!['P'] {
        if landed {
            MainAction::PlanetDetails
        } else {
            MainAction::Idle
        }
    } else {
        MainAction::Unknown
    }
}

/// The action a main-menu key asks for; `landed` tells whether the player
/// stands on a planet.
pub fn main_action(key: &str, landed: bool) -> (a: MainAction)
    ensures
        a == main_action_of(key@, landed),
{
    let v = chars_of(key);
    if v.len() != 1 {
        proof {
            assert(forall|c: char| v@ != seq![c]);
        }
        return MainAction::Unknown;
    }
    let c = v[0];
    proof {
        assert(v@ =~= seq![c]);
    }
    match c {
        '1' => MainAction::Scan,
        '2' => MainAction::Travel,
        '3' => MainAction::Land,
        '4' => MainAction::StarChart,
        'r' | 'R' | '5' => MainAction::ShipStatus,
        '6' => MainAction::PeriodicTable,
        '7' => MainAction::Physics,
        '8' | 'a' | 'A' => MainAction::Aria,
        'c' | 'C' => MainAction::Comms,
        's' | 'S' => MainAction::Save,
        'q' | 'Q' => MainAction::Quit,
        'm' | 'M' => if landed {
            MainAction::Mine
        } else {
            MainAction::Idle
        },
        'p' | 'P' => if landed {
            MainAction::PlanetDetails
        } else {
            MainAction::Idle
        },
        _ => MainAction::Unknown,
    }
}

/// Whether the answer to "Save before quitting? [Y/n]" saves: every answer
/// but "n" does.
pub fn saves_on_quit(confirm: &str) -> (b: bool)
    ensures
        b == (confirm@ != "n"@),
{
    !str_eq(confirm, "n")
}

/// One-character keys are equal exactly when their characters are.
proof fn lemma_key_eq(a: char, b: char)
    ensures
        (seq![a] == seq![b]) <==> (a == b),
{
    if seq![a] == seq![b] {
        assert(seq![a][0] == seq![b][0]);
    }
}

/// The commands available everywhere ignore ASCII case and surrounding
/// white space: a letter and its upper-case form name the same command,
/// and an input names what its trimmed form names.
pub proof fn lemma_universal_ignores_case(lower: char, upper: char, input: Seq<char>)
    requires
        'a' <= lower && lower <= 'z',
        upper as u32 + 32 == lower as u32,
    ensures
        universal_of(seq![lower]) == universal_of(seq![upper]),
        universal_of(input) == universal_of(trim_seq(input)),
{
    lemma_trim_idempotent(input);
    lemma_trim_single(lower);
    lemma_trim_single(upper);
    lemma_key_eq(lower, 'h');
    lemma_key_eq(lower, 'a');
    lemma_key_eq(lower, 'n');
    lemma_key_eq(lower, '?');
    lemma_key_eq(lower, 'H');
    lemma_key_eq(lower, 'A');
    lemma_key_eq(lower, 'N');
    lemma_key_eq(upper, 'h');
    lemma_key_eq(upper, 'a');
    lemma_key_eq(upper, 'n');
    lemma_key_eq(upper, '?');
    lemma_key_eq(upper, 'H');
    lemma_key_eq(upper, 'A');
    lemma_key_eq(upper, 'N');
}

/// A one-character key that is not white space is its own trimmed form.
proof fn lemma_trim_single(c: char)
    requires
        !is_white_space(c),
    ensures
        trim_seq(seq![c]) == seq![c],
{
    lemma_trim_idempotent(seq![c]);
    assert(trim_start_seq(seq![c]) == seq![c]);
    assert(trim_end_seq(seq![c]) == seq![c]);
}

/// The keys "?", "a" and "n" each name a command available everywhere, and
/// three different ones; "h" asks for the same as "?".
pub proof fn lemma_universal_keys_distinct()
    ensures
        universal_of(seq!['?']) is Some,
        universal_of(seq!['a']) is Some,
        universal_of(seq!['n']) is Some,
        universal_of(seq!['?']) != universal_of(seq!['a']),
        universal_of(seq!['?']) != universal_of(seq!['n']),
        universal_of(seq!['a']) != universal_of(seq!['n']),
        universal_of(seq!['h']) == universal_of(seq!['?']),
{
    lemma_trim_single('?');
    lemma_trim_single('a');
    lemma_trim_single('n');
    lemma_trim_single('h');
    lemma_key_eq('?', 'h');
    lemma_key_eq('?', 'H');
    lemma_key_eq('a', '?');
    lemma_key_eq('a', 'h');
    lemma_key_eq('a', 'H');
    lemma_key_eq('n', '?');
    lemma_key_eq('n', 'h');
    lemma_key_eq('n', 'H');
    lemma_key_eq('n', 'a');
    lemma_key_eq('n', 'A');
}

/// Main-menu keys ignore ASCII case: a letter and its upper-case form ask
/// for the same action.
pub proof fn lemma_main_keys_ignore_case(lower: char, upper: char, landed: bool)
    requires
        'a' <= lower && lower <= 'z',
        upper as u32 + 32 == lower as u32,
    ensures
        main_action_of(seq![lower], landed) == main_action_of(seq![upper], landed),
{
    let keys = seq![
        '1', '2', '3', '4', '5', '6', '7', '8', 'r', 'R', 'a', 'A', 'c', 'C', 's', 'S', 'q', 'Q',
        'm', 'M', 'p', 'P',
    ];
    assert forall|i: int| 0 <= i < keys.len() implies (seq![lower] == seq![#[trigger] keys[i]])
        == (lower == keys[i]) && (seq![upper] == seq![keys[i]]) == (upper == keys[i]) by {
        lemma_key_eq(lower, keys[i]);
        lemma_key_eq(upper, keys[i]);
    }
    assert(keys[0] == '1' && keys[1] == '2' && keys[2] == '3' && keys[3] == '4' && keys[4] == '5'
        && keys[5] == '6' && keys[6] == '7' && keys[7] == '8' && keys[8] == 'r' && keys[9] == 'R'
        && keys[10] == 'a' && keys[11] == 'A' && keys[12] == 'c' && keys[13] == 'C' && keys[14]
        == 's' && keys[15] == 'S' && keys[16] == 'q' && keys[17] == 'Q' && keys[18] == 'm'
        && keys[19] == 'M' && keys[20] == 'p' && keys[21] == 'P');
}

/// The main menu's keys [1], [2], [3], [4], [r], [6], [7], [8], [c], [s]
/// and [q] each ask for an action of their own; none of them is unknown or
/// idle. While landed, [m] and [p] ask for two further actions.
pub proof fn lemma_main_keys_distinct(landed: bool)
    ensures
        ({
            let keys = seq![
                seq!['1'],
                seq!['2'],
                seq!['3'],
                seq!['4'],
                seq!['r'],
                seq!['6'],
                seq!['7'],
                seq!['8'],
                seq!['c'],
                seq!['s'],
                seq!['q'],
            ];
            &&& forall|i: int|
                0 <= i < keys.len() ==> main_action_of(#[trigger] keys[i], landed)
                    != MainAction::Unknown && main_action_of(keys[i], landed) != MainAction::Idle
            &&& forall|i: int, j: int|
                0 <= i < j < keys.len() ==> main_action_of(#[trigger] keys[i], landed)
                    != main_action_of(#[trigger] keys[j], landed)
            &&& landed ==> main_action_of(seq!['m'], landed) != main_action_of(seq!['p'], landed)
            &&& landed ==> forall|i: int|
                0 <= i < keys.len() ==> main_action_of(seq!['m'], landed) != main_action_of(
                    #[trigger] keys[i],
                    landed,
                ) && main_action_of(seq!['p'], landed) != main_action_of(keys[i], landed)
            &&& landed ==> main_action_of(seq!['m'], landed) != MainAction::Unknown
                && main_action_of(seq!['m'], landed) != MainAction::Idle
                && main_action_of(seq!['p'], landed) != MainAction::Unknown
                && main_action_of(seq!['p'], landed) != MainAction::Idle
        }),
{
    let cs = seq!['1', '2', '3', '4', 'r', '6', '7', '8', 'c', 's', 'q', 'm', 'p'];
    let all = seq![
        '1', '2', '3', '4', '5', '6', '7', '8', 'r', 'R', 'a', 'A', 'c', 'C', 's', 'S', 'q', 'Q',
        'm', 'M', 'p', 'P',
    ];
    assert forall|i: int, j: int| 0 <= i < cs.len() && 0 <= j < all.len() implies (seq![
        #[trigger] cs[i],
    ] == seq![#[trigger] all[j]]) == (cs[i] == all[j]) by {
        lemma_key_eq(cs[i], all[j]);
    }
    assert(all[0] == '1' && all[1] == '2' && all[2] == '3' && all[3] == '4' && all[4] == '5'
        && all[5] == '6' && all[6] == '7' && all[7] == '8' && all[8] == 'r' && all[9] == 'R'
        && all[10] == 'a' && all[11] == 'A' && all[12] == 'c' && all[13] == 'C' && all[14] == 's'
        && all[15] == 'S' && all[16] == 'q' && all[17] == 'Q' && all[18] == 'm' && all[19] == 'M'
        && all[20] == 'p' && all[21] == 'P');
    assert(cs[0] == '1' && cs[1] == '2' && cs[2] == '3' && cs[3] == '4' && cs[4] == 'r' && cs[5]
        == '6' && cs[6] == '7' && cs[7] == '8' && cs[8] == 'c' && cs[9] == 's' && cs[10] == 'q'
        && cs[11] == 'm' && cs[12] == 'p');
    let keys = seq![
        seq!['1'],
        seq!['2'],
        seq!['3'],
        seq!['4'],
        seq!['r'],
        seq!['6'],
        seq!['7'],
        seq!['8'],
        seq!['c'],
        seq!['s'],
        seq!['q'],
    ];
    assert forall|i: int| 0 <= i < keys.len() implies #[trigger] keys[i] == seq![cs[i]] by {}
}

/// What each channel does with its command words, whatever their ASCII case
/// and surrounding white space: "q", "quit" and "disconnect" close every
/// channel, "exit" closes ARIA's and "close" the others; "clear" clears the
/// companion and ARIA channels; "status" or "/status" shows the ship's
/// readout on the group and companion channels, and "log" or "/log" the
/// history there. ARIA's channel has no status or log command, and the
/// group channel no clear command.
pub proof fn lemma_chat_commands_by_channel(channel: ChatChannel, input: Seq<char>)
    ensures
        ({
            let t = trim_seq(input);
            let r = chat_command_of(channel, input);
            &&& (spells(t, "q"@) || spells(t, "quit"@) || spells(t, "disconnect"@)) ==> r
                == Some(ChatCommand::Close)
            &&& channel == ChatChannel::Aria && spells(t, "exit"@) ==> r == Some(ChatCommand::Close)
            &&& channel != ChatChannel::Aria && spells(t, "close"@) ==> r == Some(
                ChatCommand::Close,
            )
            &&& channel != ChatChannel::Group && spells(t, "clear"@) ==> r == Some(
                ChatCommand::Clear,
            )
            &&& channel != ChatChannel::Aria && (spells(t, "status"@) || spells(t, "/status"@))
                ==> r == Some(ChatCommand::Status)
            &&& channel != ChatChannel::Aria && (spells(t, "log"@) || spells(t, "/log"@)) ==> r
                == Some(ChatCommand::Log)
            &&& channel == ChatChannel::Aria ==> r != Some(ChatCommand::Status) && r != Some(
                ChatCommand::Log,
            )
            &&& channel == ChatChannel::Group ==> r != Some(ChatCommand::Clear)
        }),
{
    reveal_strlit("q");
    reveal_strlit("quit");
    reveal_strlit("disconnect");
    reveal_strlit("exit");
    reveal_strlit("close");
    reveal_strlit("clear");
    reveal_strlit("status");
    reveal_strlit("/status");
    reveal_strlit("log");
    reveal_strlit("/log");
    let t = trim_seq(input);
    if spells(t, "quit"@) || spells(t, "exit"@) || spells(t, "/log"@) {
        assert(folds_to(t[0], t[0]));
    }
    if spells(t, "close"@) || spells(t, "clear"@) {
        assert(folds_to(t[2], t[2]));
    }
}

} // verus!
