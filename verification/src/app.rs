//! Views, sort keys, process actions and notices of the monitor.
use vstd::prelude::*;

use crate::text::{push_decimal};

verus! {

/// A view of the process table.
#[derive(Debug, Clone, Copy, PartialEq, Eq, Structural)]
pub enum Tab {
    Cpu,
    Memory,
    Energy,
    Disk,
    Network,
    Movers,
}

/// The views in display order.
pub open spec fn tab_order() -> Seq<Tab> {
    seq![Tab::Cpu, Tab::Memory, Tab::Energy, Tab::Disk, Tab::Network, Tab::Movers]
}

/// The position of a view in [`tab_order`].
pub open spec fn tab_index(tab: Tab) -> int {
    match tab {
        Tab::Cpu => 0,
        Tab::Memory => 1,
        Tab::Energy => 2,
        Tab::Disk => 3,
        Tab::Network => 4,
        Tab::Movers => 5,
    }
}

/// The title of a view.
pub open spec fn tab_title(tab: Tab) -> Seq<char> {
    match tab {
        Tab::Cpu => seq!['C', 'P', 'U'],
        Tab::Memory => seq!['M', 'e', 'm', 'o', 'r', 'y'],
        Tab::Energy => seq!['E', 'n', 'e', 'r', 'g', 'y'],
        Tab::Disk => seq!['D', 'i', 's', 'k'],
        Tab::Network => seq!['N', 'e', 't', 'w', 'o', 'r', 'k'],
        Tab::Movers => seq!['M', 'o', 'v', 'e', 'r', 's'],
    }
}

/// The sort key a view starts with.
pub open spec fn tab_default_sort(tab: Tab) -> SortKey {
    match tab {
        Tab::Cpu => SortKey::Cpu,
        Tab::Memory => SortKey::Memory,
        Tab::Energy => SortKey::Energy,
        Tab::Disk => SortKey::DiskWrite,
        Tab::Network => SortKey::Name,
        Tab::Movers => SortKey::Trend,
    }
}

impl Tab {
    /// The views in display order.
    pub fn all() -> (r: [Tab; 6])
        ensures
            r@ == tab_order(),
    {
        let r = [Tab::Cpu, Tab::Memory, Tab::Energy, Tab::Disk, Tab::Network, Tab::Movers];
        assert(r@ =~= tab_order());
        r
    }

    /// The position of this view in display order.
    pub fn index(self) -> (r: usize)
        ensures
            r as int == tab_index(self),
            tab_order()[r as int] == self,
    {
        match self {
            Tab::Cpu => 0,
            Tab::Memory => 1,
            Tab::Energy => 2,
            Tab::Disk => 3,
            Tab::Network => 4,
            Tab::Movers => 5,
        }
    }

    /// The view at a position in display order.
    pub fn at(index: usize) -> (r: Tab)
        requires
            index < 6,
        ensures
            r == tab_order()[index as int],
            tab_index(r) == index,
    {
        if index == 0 {
            Tab::Cpu
        } else if index == 1 {
            Tab::Memory
        } else if index == 2 {
            Tab::Energy
        } else if index == 3 {
            Tab::Disk
        } else if index == 4 {
            Tab::Network
        } else {
            Tab::Movers
        }
    }

    /// The title shown for this view.
    pub fn title(self) -> (r: &'static str)
        ensures
            r@ == tab_title(self),
    {
        proof {
            reveal_strlit("CPU");
            reveal_strlit("Memory");
            reveal_strlit("Energy");
            reveal_strlit("Disk");
            reveal_strlit("Network");
            reveal_strlit("Movers");
        }
        match self {
            Tab::Cpu => "CPU",
            Tab::Memory => "Memory",
            Tab::Energy => "Energy",
            Tab::Disk => "Disk",
            Tab::Network => "Network",
            Tab::Movers => "Movers",
        }
    }

    /// The sort key this view starts with.
    pub fn default_sort(self) -> (r: SortKey)
        ensures
            r == tab_default_sort(self),
    {
        match self {
            Tab::Cpu => SortKey::Cpu,
            Tab::Memory => SortKey::Memory,
            Tab::Energy => SortKey::Energy,
            Tab::Disk => SortKey::DiskWrite,
            Tab::Network => SortKey::Name,
            Tab::Movers => SortKey::Trend,
        }
    }
}

/// What the process table is ordered by.
#[derive(Debug, Clone, Copy, PartialEq, Eq, Structural)]
pub enum SortKey {
    Cpu,
    Memory,
    Energy,
    DiskRead,
    DiskWrite,
    NetworkIn,
    NetworkOut,
    Trend,
    Name,
    Pid,
    User,
    Runtime,
}

/// The column title of a sort key.
pub open spec fn sort_title(key: SortKey) -> Seq<char> {
    match key {
        SortKey::Cpu => seq!['%', ' ', 'C', 'P', 'U'],
        SortKey::Memory => seq!['M', 'e', 'm', 'o', 'r', 'y'],
        SortKey::Energy => seq!['I', 'm', 'p', 'a', 'c', 't'],
        SortKey::DiskRead => seq!['R', 'e', 'a', 'd', '/', 's'],
        SortKey::DiskWrite => seq!['W', 'r', 'i', 't', 'e', '/', 's'],
        SortKey::NetworkIn => seq!['I', 'n', '/', 's'],
        SortKey::NetworkOut => seq!['O', 'u', 't', '/', 's'],
        SortKey::Trend => seq!['C', 'h', 'a', 'n', 'g', 'e'],
        SortKey::Name => seq!['N', 'a', 'm', 'e'],
        SortKey::Pid => seq!['P', 'I', 'D'],
        SortKey::User => seq!['U', 's', 'e', 'r'],
        SortKey::Runtime => seq!['R', 'u', 'n', 't', 'i', 'm', 'e'],
    }
}

/// The name under which a sort key is stored in the preferences.
pub open spec fn sort_config_name(key: SortKey) -> Seq<char> {
    match key {
        SortKey::Cpu => seq!['C', 'p', 'u'],
        SortKey::Memory => seq!['M', 'e', 'm', 'o', 'r', 'y'],
        SortKey::Energy => seq!['E', 'n', 'e', 'r', 'g', 'y'],
        SortKey::DiskRead => seq!['D', 'i', 's', 'k', 'R', 'e', 'a', 'd'],
        SortKey::DiskWrite => seq!['D', 'i', 's', 'k', 'W', 'r', 'i', 't', 'e'],
        SortKey::NetworkIn => seq!['N', 'e', 't', 'w', 'o', 'r', 'k', 'I', 'n'],
        SortKey::NetworkOut => seq!['N', 'e', 't', 'w', 'o', 'r', 'k', 'O', 'u', 't'],
        SortKey::Trend => seq!['T', 'r', 'e', 'n', 'd'],
        SortKey::Name => seq!['N', 'a', 'm', 'e'],
        SortKey::Pid => seq!['P', 'i', 'd'],
        SortKey::User => seq!['U', 's', 'e', 'r'],
        SortKey::Runtime => seq!['R', 'u', 'n', 't', 'i', 'm', 'e'],
    }
}

/// The sort key a stored name stands for: a stored name, or the column title
/// older versions stored; anything else means CPU.
pub open spec fn sort_key_named(name: Seq<char>) -> SortKey {
    if exists|k: SortKey| sort_config_name(k) == name {
        choose|k: SortKey| sort_config_name(k) == name
    } else if exists|k: SortKey| sort_title(k) == name {
        choose|k: SortKey| sort_title(k) == name
    } else {
        SortKey::Cpu
    }
}

/// Whether a sort key starts out descending: all but name, PID and user.
pub open spec fn sort_default_desc(key: SortKey) -> bool {
    !(key == SortKey::Name || key == SortKey::Pid || key == SortKey::User)
}

/// The order in which `s` cycles through the sort keys.
pub open spec fn sort_cycle() -> Seq<SortKey> {
    seq![
        SortKey::Cpu,
        SortKey::Memory,
        SortKey::Energy,
        SortKey::DiskWrite,
        SortKey::DiskRead,
        SortKey::Trend,
        SortKey::Name,
        SortKey::Pid,
        SortKey::User,
        SortKey::Runtime,
    ]
}

/// The key after `key` in [`sort_cycle`]; keys outside the cycle go on as
/// CPU does.
pub open spec fn next_sort_key(key: SortKey) -> SortKey {
    match key {
        SortKey::Cpu => SortKey::Memory,
        SortKey::Memory => SortKey::Energy,
        SortKey::Energy => SortKey::DiskWrite,
        SortKey::DiskWrite => SortKey::DiskRead,
        SortKey::DiskRead => SortKey::Trend,
        SortKey::Trend => SortKey::Name,
        SortKey::Name => SortKey::Pid,
        SortKey::Pid => SortKey::User,
        SortKey::User => SortKey::Runtime,
        SortKey::Runtime => SortKey::Cpu,
        SortKey::NetworkIn => SortKey::Memory,
        SortKey::NetworkOut => SortKey::Memory,
    }
}

/// Stored names and titles each name one key.
pub proof fn lemma_sort_names_distinct()
    ensures
        forall|a: SortKey, b: SortKey| sort_config_name(a) == sort_config_name(b) ==> a == b,
        forall|a: SortKey, b: SortKey| sort_title(a) == sort_title(b) ==> a == b,
{
    assert forall|a: SortKey, b: SortKey| sort_config_name(a) == sort_config_name(b) implies a
        == b by {
        if a != b {
            let x = sort_config_name(a);
            let y = sort_config_name(b);
            if x.len() == y.len() {
                assert(x[0] != y[0] || x[1] != y[1] || x[x.len() - 1] != y[y.len() - 1] || x[4]
                    != y[4]);
            }
        }
    }
    assert forall|a: SortKey, b: SortKey| sort_title(a) == sort_title(b) implies a == b by {
        if a != b {
            let x = sort_title(a);
            let y = sort_title(b);
            if x.len() == y.len() {
                assert(x[0] != y[0] || x[1] != y[1] || x[x.len() - 1] != y[y.len() - 1]);
            }
        }
    }
}

impl SortKey {
    /// The column title of this key.
    pub fn title(self) -> (r: &'static str)
        ensures
            r@ == sort_title(self),
    {
        proof {
            reveal_strlit("% CPU");
            reveal_strlit("Memory");
            reveal_strlit("Impact");
            reveal_strlit("Read/s");
            reveal_strlit("Write/s");
            reveal_strlit("In/s");
            reveal_strlit("Out/s");
            reveal_strlit("Change");
            reveal_strlit("Name");
            reveal_strlit("PID");
            reveal_strlit("User");
            reveal_strlit("Runtime");
        }
        match self {
            SortKey::Cpu => "% CPU",
            SortKey::Memory => "Memory",
            SortKey::Energy => "Impact",
            SortKey::DiskRead => "Read/s",
            SortKey::DiskWrite => "Write/s",
            SortKey::NetworkIn => "In/s",
            SortKey::NetworkOut => "Out/s",
            SortKey::Trend => "Change",
            SortKey::Name => "Name",
            SortKey::Pid => "PID",
            SortKey::User => "User",
            SortKey::Runtime => "Runtime",
        }
    }

    /// The name under which this key is stored in the preferences.
    pub fn config_name(self) -> (r: &'static str)
        ensures
            r@ == sort_config_name(self),
    {
        proof {
            reveal_strlit("Cpu");
            reveal_strlit("Memory");
            reveal_strlit("Energy");
            reveal_strlit("DiskRead");
            reveal_strlit("DiskWrite");
            reveal_strlit("NetworkIn");
            reveal_strlit("NetworkOut");
            reveal_strlit("Trend");
            reveal_strlit("Name");
            reveal_strlit("Pid");
            reveal_strlit("User");
            reveal_strlit("Runtime");
        }
        match self {
            SortKey::Cpu => "Cpu",
            SortKey::Memory => "Memory",
            SortKey::Energy => "Energy",
            SortKey::DiskRead => "DiskRead",
            SortKey::DiskWrite => "DiskWrite",
            SortKey::NetworkIn => "NetworkIn",
            SortKey::NetworkOut => "NetworkOut",
            SortKey::Trend => "Trend",
            SortKey::Name => "Name",
            SortKey::Pid => "Pid",
            SortKey::User => "User",
            SortKey::Runtime => "Runtime",
        }
    }

    /// The key a stored name stands for, as [`sort_key_named`] describes.
    pub fn from_config_name(name: &str) -> (r: SortKey)
        ensures
            r == sort_key_named(name@),
    {
        proof {
            lemma_sort_names_distinct();
        }
        let keys = [
            SortKey::Cpu,
            SortKey::Memory,
            SortKey::Energy,
            SortKey::DiskRead,
            SortKey::DiskWrite,
            SortKey::NetworkIn,
            SortKey::NetworkOut,
            SortKey::Trend,
            SortKey::Name,
            SortKey::Pid,
            SortKey::User,
            SortKey::Runtime,
        ];
        let chars = crate::text::chars_of(name);
        let mut i: usize = 0;
        while i < 12
            invariant
                i <= 12,
                chars@ == name@,
                keys@ == seq![
                    SortKey::Cpu,
                    SortKey::Memory,
                    SortKey::Energy,
                    SortKey::DiskRead,
                    SortKey::DiskWrite,
                    SortKey::NetworkIn,
                    SortKey::NetworkOut,
                    SortKey::Trend,
                    SortKey::Name,
                    SortKey::Pid,
                    SortKey::User,
                    SortKey::Runtime,
                ],
                forall|j: int| 0 <= j < i ==> sort_config_name(#[trigger] keys@[j]) != name@,
            decreases 12 - i,
        {
            let k = keys[i];
            if crate::text::chars_eq_str(chars.as_slice(), k.config_name()) {
                return k;
            }
            i = i + 1;
        }
        proof {
            assert forall|k: SortKey| sort_config_name(k) != name@ by {
                let j: int = match k {
                    SortKey::Cpu => 0,
                    SortKey::Memory => 1,
                    SortKey::Energy => 2,
                    SortKey::DiskRead => 3,
                    SortKey::DiskWrite => 4,
                    SortKey::NetworkIn => 5,
                    SortKey::NetworkOut => 6,
                    SortKey::Trend => 7,
                    SortKey::Name => 8,
                    SortKey::Pid => 9,
                    SortKey::User => 10,
                    SortKey::Runtime => 11,
                };
                assert(keys@[j] == k);
            }
        }
        let mut i: usize = 0;
        while i < 12
            invariant
                i <= 12,
                chars@ == name@,
                keys@ == seq![
                    SortKey::Cpu,
                    SortKey::Memory,
                    SortKey::Energy,
                    SortKey::DiskRead,
                    SortKey::DiskWrite,
                    SortKey::NetworkIn,
                    SortKey::NetworkOut,
                    SortKey::Trend,
                    SortKey::Name,
                    SortKey::Pid,
                    SortKey::User,
                    SortKey::Runtime,
                ],
                forall|k: SortKey| sort_config_name(k) != name@,
                forall|j: int| 0 <= j < i ==> sort_title(#[trigger] keys@[j]) != name@,
            decreases 12 - i,
        {
            let k = keys[i];
            if crate::text::chars_eq_str(chars.as_slice(), k.title()) {
                return k;
            }
            i = i + 1;
        }
        proof {
            assert forall|k: SortKey| sort_title(k) != name@ by {
                let j: int = match k {
                    SortKey::Cpu => 0,
                    SortKey::Memory => 1,
                    SortKey::Energy => 2,
                    SortKey::DiskRead => 3,
                    SortKey::DiskWrite => 4,
                    SortKey::NetworkIn => 5,
                    SortKey::NetworkOut => 6,
                    SortKey::Trend => 7,
                    SortKey::Name => 8,
                    SortKey::Pid => 9,
                    SortKey::User => 10,
                    SortKey::Runtime => 11,
                };
                assert(keys@[j] == k);
            }
        }
        SortKey::Cpu
    }

    /// Whether this key starts out descending.
    pub fn default_desc(self) -> (r: bool)
        ensures
            r == sort_default_desc(self),
    {
        !(self == SortKey::Name || self == SortKey::Pid || self == SortKey::User)
    }

    /// The key after this one in the `s` cycle.
    pub fn next_in_cycle(self) -> (r: SortKey)
        ensures
            r == next_sort_key(self),
    {
        match self {
            SortKey::Cpu => SortKey::Memory,
            SortKey::Memory => SortKey::Energy,
            SortKey::Energy => SortKey::DiskWrite,
            SortKey::DiskWrite => SortKey::DiskRead,
            SortKey::DiskRead => SortKey::Trend,
            SortKey::Trend => SortKey::Name,
            SortKey::Name => SortKey::Pid,
            SortKey::Pid => SortKey::User,
            SortKey::User => SortKey::Runtime,
            SortKey::Runtime => SortKey::Cpu,
            SortKey::NetworkIn => SortKey::Memory,
            SortKey::NetworkOut => SortKey::Memory,
        }
    }
}

/// A stored sort key name reads back as the key it was stored from.
pub proof fn lemma_sort_key_name_round_trip(key: SortKey)
    ensures
        sort_key_named(sort_config_name(key)) == key,
{
    lemma_sort_names_distinct();
}

/// The column titles older versions stored read back as their keys.
pub proof fn lemma_legacy_titles_read_back(key: SortKey)
    ensures
        sort_key_named(sort_title(key)) == key,
{
    lemma_sort_names_distinct();
    let t = sort_title(key);
    if exists|k: SortKey| sort_config_name(k) == t {
        let k = choose|k: SortKey| sort_config_name(k) == t;
        let c = sort_config_name(k);
        assert(c.len() == t.len());
        assert(k == key) by {
            if k != key {
                assert(c[0] != t[0] || c[1] != t[1] || c[c.len() - 1] != t[t.len() - 1]);
            }
        }
    }
}

/// Cycling with `s` visits each of its keys in [`sort_cycle`] order and
/// comes back to the start.
pub proof fn lemma_sort_cycle(i: int)
    requires
        0 <= i < 10,
    ensures
        next_sort_key(sort_cycle()[i]) == sort_cycle()[(i + 1) % 10],
{
}

} // verus!

verus! {

/// A signal the monitor can send to a process.
#[derive(Debug, Clone, Copy, PartialEq, Eq, Structural)]
pub enum ProcessSignal {
    Term,
    Kill,
    Stop,
    Continue,
}

/// An action on the selected process that waits for confirmation.
#[derive(Debug, Clone, Copy, PartialEq, Eq, Structural)]
pub enum ProcessIntent {
    Term,
    Kill,
    Stop,
    Continue,
    NiceLower,
    NiceHigher,
}

/// The label of an action.
pub open spec fn intent_label(intent: ProcessIntent) -> Seq<char> {
    match intent {
        ProcessIntent::Term => seq!['T', 'E', 'R', 'M'],
        ProcessIntent::Kill => seq!['K', 'I', 'L', 'L'],
        ProcessIntent::Stop => seq!['S', 'T', 'O', 'P'],
        ProcessIntent::Continue => seq!['C', 'O', 'N', 'T'],
        ProcessIntent::NiceLower => seq!['n', 'i', 'c', 'e', ' ', '+', '5'],
        ProcessIntent::NiceHigher => seq!['n', 'i', 'c', 'e', ' ', '-', '5'],
    }
}

/// Whether an action sends a signal (the others change the priority).
pub open spec fn intent_is_signal(intent: ProcessIntent) -> bool {
    !(intent == ProcessIntent::NiceLower || intent == ProcessIntent::NiceHigher)
}

/// The notice shown when an action is declined.
pub open spec fn intent_cancel_label(intent: ProcessIntent) -> Seq<char> {
    if intent_is_signal(intent) {
        "process signal cancelled"@
    } else {
        "priority change cancelled"@
    }
}

/// `pid` in decimal.
pub open spec fn pid_text(pid: u32) -> Seq<char> {
    crate::text::decimal(pid as nat)
}

/// A priority in decimal, with `-` in front when negative.
pub open spec fn priority_text(p: i32) -> Seq<char> {
    if p < 0 {
        seq!['-'] + crate::text::decimal((-p) as nat)
    } else {
        crate::text::decimal(p as nat)
    }
}

/// The notice after a signal was sent.
pub open spec fn signal_sent_text(intent: ProcessIntent, pid: u32) -> Seq<char> {
    "sent "@ + intent_label(intent) + " to pid "@ + pid_text(pid)
}

/// The notice after a priority was set.
pub open spec fn priority_set_text(pid: u32, priority: i32) -> Seq<char> {
    "set pid "@ + pid_text(pid) + " priority to "@ + priority_text(priority)
}

/// The priority an adjustment asks for: the current one moved by `delta` and
/// kept within -20..=20.
pub open spec fn adjusted_priority(current: int, delta: int) -> int {
    let p = current + delta;
    if p < -20 {
        -20
    } else if p > 20 {
        20
    } else {
        p
    }
}

/// Appends a priority in decimal.
pub fn push_priority(out: &mut String, p: i32)
    ensures
        final(out)@ == old(out)@ + priority_text(p),
{
    if p < 0 {
        out.push('-');
        let m: u64 = (-(p as i64)) as u64;
        push_decimal(out, m);
    } else {
        push_decimal(out, p as u64);
    }
    assert(out@ =~= old(out)@ + priority_text(p));
}

impl ProcessIntent {
    /// The label of this action.
    pub fn label(self) -> (r: &'static str)
        ensures
            r@ == intent_label(self),
    {
        proof {
            reveal_strlit("TERM");
            reveal_strlit("KILL");
            reveal_strlit("STOP");
            reveal_strlit("CONT");
            reveal_strlit("nice +5");
            reveal_strlit("nice -5");
        }
        match self {
            ProcessIntent::Term => "TERM",
            ProcessIntent::Kill => "KILL",
            ProcessIntent::Stop => "STOP",
            ProcessIntent::Continue => "CONT",
            ProcessIntent::NiceLower => "nice +5",
            ProcessIntent::NiceHigher => "nice -5",
        }
    }

    /// The notice shown when this action is declined.
    pub fn cancel_label(self) -> (r: &'static str)
        ensures
            r@ == intent_cancel_label(self),
    {
        match self {
            ProcessIntent::NiceLower | ProcessIntent::NiceHigher => "priority change cancelled",
            _ => "process signal cancelled",
        }
    }

    /// The signal this action sends.
    pub fn signal(self) -> (r: ProcessSignal)
        requires
            intent_is_signal(self),
        ensures
            self == ProcessIntent::Term ==> r == ProcessSignal::Term,
            self == ProcessIntent::Kill ==> r == ProcessSignal::Kill,
            self == ProcessIntent::Stop ==> r == ProcessSignal::Stop,
            self == ProcessIntent::Continue ==> r == ProcessSignal::Continue,
    {
        match self {
            ProcessIntent::Term => ProcessSignal::Term,
            ProcessIntent::Kill => ProcessSignal::Kill,
            ProcessIntent::Stop => ProcessSignal::Stop,
            _ => ProcessSignal::Continue,
        }
    }

    /// The priority change this action asks for: +5 to lower the priority,
    /// -5 to raise it, nothing for the signals.
    pub fn priority_delta(self) -> (r: Option<i32>)
        ensures
            self == ProcessIntent::NiceLower ==> r == Some(5i32),
            self == ProcessIntent::NiceHigher ==> r == Some(-5i32),
            intent_is_signal(self) ==> r is None,
    {
        match self {
            ProcessIntent::NiceLower => Some(5),
            ProcessIntent::NiceHigher => Some(-5),
            _ => None,
        }
    }

    /// The notice after this action sent its signal to `pid`.
    pub fn sent_message(self, pid: u32) -> (r: String)
        ensures
            r@ == signal_sent_text(self, pid),
    {
        let mut out = String::from_str("sent ");
        out.append(self.label());
        out.append(" to pid ");
        push_decimal(&mut out, pid as u64);
        assert(out@ =~= signal_sent_text(self, pid));
        out
    }
}

/// The notice after the priority of `pid` was set to `priority`.
pub fn priority_message(pid: u32, priority: i32) -> (r: String)
    ensures
        r@ == priority_set_text(pid, priority),
{
    let mut out = String::from_str("set pid ");
    push_decimal(&mut out, pid as u64);
    out.append(" priority to ");
    push_priority(&mut out, priority);
    assert(out@ =~= priority_set_text(pid, priority));
    out
}

/// What adjusting the priority of `pid` by `delta` comes to: an error when
/// the process is no longer visible, or when its priority cannot be read;
/// otherwise the priority to set, [`adjusted_priority`] of the current one.
pub open spec fn priority_plan(pid: u32, visible: bool, current: Option<i32>, delta: i32) -> Result<int, Seq<char>> {
    if !visible {
        Err("process "@ + crate::text::decimal(pid as nat) + " is no longer visible"@)
    } else {
        match current {
            None => Err("priority is unavailable for pid "@ + crate::text::decimal(pid as nat)),
            Some(c) => Ok(adjusted_priority(c as int, delta as int)),
        }
    }
}

/// The priority to set for `pid`, or why there is none; see
/// [`priority_plan`]. `current` is the priority read, when the process is
/// visible.
pub fn plan_priority(pid: u32, visible: bool, current: Option<i32>, delta: i32) -> (r: crate::error::Result<i32>)
    ensures
        match priority_plan(pid, visible, current, delta) {
            Ok(p) => r matches Ok(q) && q as int == p,
            Err(t) => r matches Err(e) && e@ == t,
        },
{
    if !visible {
        let mut text = String::from_str("process ");
        push_decimal(&mut text, pid as u64);
        text.append(" is no longer visible");
        return Err(crate::error::message(text));
    }
    match current {
        None => {
            let mut text = String::from_str("priority is unavailable for pid ");
            push_decimal(&mut text, pid as u64);
            Err(crate::error::message(text))
        },
        Some(c) => Ok(adjust_priority_value(c, delta)),
    }
}

/// The priority to set when adjusting `current` by `delta`.
pub fn adjust_priority_value(current: i32, delta: i32) -> (r: i32)
    ensures
        r as int == adjusted_priority(current as int, delta as int),
        -20 <= r <= 20,
{
    let p: i64 = current as i64 + delta as i64;
    if p < -20 {
        -20
    } else if p > 20 {
        20
    } else {
        p as i32
    }
}

// ---------------------------------------------------------------------------
// Notices
// ---------------------------------------------------------------------------

#[verifier::external_type_specification]
#[verifier::external_body]
pub struct ExInstant(std::time::Instant);

/// Reads the monotonic clock (`Instant::now`). Nothing is stated of the
/// value: it is the time.
#[verifier::external_body]
fn instant_now() -> std::time::Instant {
    std::time::Instant::now()
}

/// The time passed since `at` (`Instant::elapsed`). Nothing is stated of
/// the value: it depends on the clock.
#[verifier::external_body]
fn elapsed_since(at: &std::time::Instant) -> std::time::Duration {
    at.elapsed()
}

/// The whole nanoseconds of a duration (`Duration::as_nanos`).
pub uninterp spec fn duration_nanos(d: std::time::Duration) -> u128;

/// Calls `Duration::as_nanos`. Its result is a function of the duration
/// alone, named `duration_nanos`; nothing more is stated of it.
#[verifier::external_body]
fn as_nanos(d: &std::time::Duration) -> (r: u128)
    ensures
        r == duration_nanos(*d),
{
    d.as_nanos()
}

/// The nanoseconds passed since `at`: those of the duration the clock
/// gives, which nothing here pins down.
fn elapsed_ns(at: &std::time::Instant) -> (r: u128)
    ensures
        exists|d: std::time::Duration| r == #[trigger] duration_nanos(d),
{
    let d = elapsed_since(at);
    let r = as_nanos(&d);
    assert(r == duration_nanos(d));
    r
}

/// How long a notice stays, in nanoseconds (four seconds).
pub const NOTICE_TTL_NS: u64 = 4_000_000_000;

/// A transient message in the title bar.
#[derive(Debug)]
pub struct Notice {
    text: String,
    created_at: std::time::Instant,
}

/// The time left for a notice after `elapsed` nanoseconds.
pub open spec fn notice_remaining(elapsed: nat) -> nat {
    if elapsed >= NOTICE_TTL_NS {
        0
    } else {
        (NOTICE_TTL_NS - elapsed) as nat
    }
}

impl View for Notice {
    type V = Seq<char>;

    /// The message.
    closed spec fn view(&self) -> Seq<char> {
        self.text@
    }
}

impl Notice {
    /// A notice with the given message, starting now.
    pub fn new(text: String) -> (r: Notice)
        ensures
            r@ == text@,
    {
        Notice { text, created_at: instant_now() }
    }

    /// The message.
    pub fn text(&self) -> (r: &str)
        ensures
            r@ == self@,
    {
        self.text.as_str()
    }

    /// The nanoseconds left after `elapsed` nanoseconds.
    pub fn remaining_after(elapsed: u128) -> (r: u64)
        ensures
            r as nat == notice_remaining(elapsed as nat),
    {
        if elapsed >= NOTICE_TTL_NS as u128 {
            0
        } else {
            NOTICE_TTL_NS - elapsed as u64
        }
    }

    /// The nanoseconds passed since this notice was made, by the clock.
    pub fn age(&self) -> (r: u128)
        ensures
            exists|d: std::time::Duration| r == #[trigger] duration_nanos(d),
    {
        elapsed_ns(&self.created_at)
    }

    /// The nanoseconds this notice has left by the clock.
    pub fn remaining(&self) -> (r: u64)
        ensures
            r <= NOTICE_TTL_NS,
            exists|d: std::time::Duration|
                r as nat == notice_remaining(#[trigger] duration_nanos(d) as nat),
    {
        let elapsed = self.age();
        let ghost d = choose|d: std::time::Duration| elapsed == duration_nanos(d);
        let r = Self::remaining_after(elapsed);
        assert(r as nat == notice_remaining(duration_nanos(d) as nat));
        r
    }

    /// Whether this notice has run out by the clock.
    pub fn expired(&self) -> (r: bool)
        ensures
            exists|d: std::time::Duration|
                r == (notice_remaining(#[trigger] duration_nanos(d) as nat) == 0),
    {
        let left = self.remaining();
        let ghost d = choose|d: std::time::Duration|
            left as nat == notice_remaining(duration_nanos(d) as nat);
        let r = left == 0;
        assert(r == (notice_remaining(duration_nanos(d) as nat) == 0));
        r
    }
}

} // verus!

verus! {

// ---------------------------------------------------------------------------
// The open files and sockets panel
// ---------------------------------------------------------------------------

/// A snapshot of one process's open files and sockets, captured on demand;
/// a failure to read them is kept as a message so that it shows in the panel.
#[derive(Debug)]
pub struct HandlesView {
    pub pid: u32,
    pub name: String,
    pub files: Vec<crate::inspect::FileEntry>,
    pub sockets: Vec<crate::inspect::SocketEntry>,
    pub error: Option<String>,
}

impl HandlesView {
    /// The panel for `pid` from the outcome of reading its handles: the
    /// handles, or no handles and the message.
    pub fn from_result(pid: u32, name: String, result: crate::error::Result<crate::inspect::ProcessHandles>) -> (r: HandlesView)
        ensures
            r.pid == pid,
            r.name@ == name@,
            match result {
                Ok(h) => r.files == h.files && r.sockets == h.sockets && r.error is None,
                Err(e) => r.files@.len() == 0 && r.sockets@.len() == 0
                    && (r.error matches Some(m) && m@ == e@),
            },
    {
        match result {
            Ok(handles) => HandlesView {
                pid,
                name,
                files: handles.files,
                sockets: handles.sockets,
                error: None,
            },
            Err(error) => HandlesView {
                pid,
                name,
                files: Vec::new(),
                sockets: Vec::new(),
                error: Some(error.text()),
            },
        }
    }
}

} // verus!

verus! {

// ---------------------------------------------------------------------------
// Input, and what the monitor is asked to do about it
// ---------------------------------------------------------------------------

/// A key, as far as the monitor tells keys apart.
#[derive(Debug, Clone, Copy, PartialEq, Eq, Structural)]
pub enum KeyCode {
    Char(char),
    Esc,
    Enter,
    Backspace,
    Tab,
    BackTab,
    Up,
    Down,
    PageUp,
    PageDown,
    Home,
    End,
    Other,
}

/// A key press; `ctrl` tells whether Control was held.
#[derive(Debug, Clone, Copy, PartialEq, Eq, Structural)]
pub struct Key {
    pub code: KeyCode,
    pub ctrl: bool,
}

/// Something the user did.
#[derive(Debug, Clone, Copy, PartialEq, Eq, Structural)]
pub enum Input {
    Key(Key),
    ScrollUp,
    ScrollDown,
    Click(crate::table::TableHit),
    Other,
}

/// Outside work that an input calls for, which the caller performs.
#[derive(Debug, Clone, Copy, PartialEq, Eq, Structural)]
pub enum Effect {
    /// Nothing.
    Nothing,
    /// Sample again, then re-sort and refilter, keeping the selected process.
    Refresh,
    /// Re-sort and refilter, keeping the selected process.
    Rebuild,
    /// Refilter, keeping the selected process.
    Refilter,
    /// Load the details of the selected process.
    Hydrate,
    /// Read the open files and sockets of this process.
    OpenHandles(u32),
    /// Carry out this action on this process.
    Apply(ProcessIntent, u32),
}

// ---------------------------------------------------------------------------
// The model: what the monitor shows, as plain values
// ---------------------------------------------------------------------------

/// The view state of the monitor as mathematical values.
pub struct AppModel {
    pub tab: Tab,
    pub sort_key: SortKey,
    pub sort_desc: bool,
    pub filter: Seq<char>,
    pub filter_mode: bool,
    pub show_details: bool,
    pub show_help: bool,
    pub overview_visible: bool,
    pub help_scroll: usize,
    pub inspector_scroll: usize,
    pub notice: Option<Seq<char>>,
    pub confirm: Option<ProcessIntent>,
    pub handles: Option<HandlesView>,
    pub interval_ms: u64,
    pub should_quit: bool,
    pub visible: Seq<u32>,
    pub selected: Option<usize>,
}

/// The outcome of one input: the next state, whether the screen changed,
/// and the outside work to do.
pub struct Step {
    pub next: AppModel,
    pub changed: bool,
    pub effect: Effect,
}

/// The selection points at a shown row, if at all.
pub open spec fn model_wf(m: AppModel) -> bool {
    m.selected matches Some(i) ==> i < m.visible.len()
}

/// The process id of the selected row, if a row is selected.
pub open spec fn selected_pid_in(m: AppModel) -> Option<u32> {
    match m.selected {
        Some(i) => if i < m.visible.len() {
            Some(m.visible[i as int])
        } else {
            None
        },
        None => None,
    }
}

/// Nothing happens.
pub open spec fn stay(m: AppModel) -> Step {
    Step { next: m, changed: false, effect: Effect::Nothing }
}

/// The state becomes `m` and the screen is drawn again.
pub open spec fn redraw(m: AppModel) -> Step {
    Step { next: m, changed: true, effect: Effect::Nothing }
}

/// The state becomes `m`, the screen changes, and `effect` is asked for.
pub open spec fn with_effect(m: AppModel, effect: Effect) -> Step {
    Step { next: m, changed: true, effect }
}

/// `n + 1`, or `n` at the top of the range.
pub open spec fn up_one(n: usize) -> usize {
    if n == usize::MAX {
        n
    } else {
        (n + 1) as usize
    }
}

/// `n - 1`, or 0.
pub open spec fn down_one(n: usize) -> usize {
    if n == 0 {
        0
    } else {
        (n - 1) as usize
    }
}

/// The text without its last character.
pub open spec fn without_last(s: Seq<char>) -> Seq<char> {
    if s.len() == 0 {
        s
    } else {
        s.drop_last()
    }
}

/// Control-C, which quits from anywhere.
pub open spec fn is_ctrl_c(key: Key) -> bool {
    key.ctrl && (key.code == KeyCode::Char('c') || key.code == KeyCode::Char('C'))
}

/// Something covers the table: the help, the handles panel, a pending
/// confirmation, or the filter prompt.
pub open spec fn overlay_open(m: AppModel) -> bool {
    m.show_help || m.handles is Some || m.confirm is Some || m.filter_mode
}

/// The refresh interval one step slower (`+`): 250 ms more, at most the
/// largest interval.
pub open spec fn slower_interval(ms: u64) -> u64 {
    if ms + 250 > crate::cli::MAX_INTERVAL_MS {
        crate::cli::MAX_INTERVAL_MS
    } else {
        (ms + 250) as u64
    }
}

/// The refresh interval one step faster (`-`): 250 ms less, at least the
/// smallest interval.
pub open spec fn faster_interval(ms: u64) -> u64 {
    let less: int = if ms >= 250 {
        ms - 250
    } else {
        0
    };
    if less < crate::cli::MIN_INTERVAL_MS {
        crate::cli::MIN_INTERVAL_MS
    } else {
        less as u64
    }
}

/// The notice after the refresh interval changed.
pub open spec fn interval_notice(ms: u64) -> Seq<char> {
    "refresh interval: "@ + crate::text::decimal(ms as nat) + " ms"@
}

/// Quitting: pending prompts and panels close.
pub open spec fn quit_step(m: AppModel) -> Step {
    redraw(
        AppModel {
            should_quit: true,
            confirm: None,
            filter_mode: false,
            show_help: false,
            handles: None,
            ..m
        },
    )
}

/// A key while the help is open: Esc, Enter, `?` or `q` close it, `j` and
/// `k` scroll it.
pub open spec fn help_step(m: AppModel, key: Key) -> Step {
    let c = key.code;
    if c == KeyCode::Esc || c == KeyCode::Enter || c == KeyCode::Char('?') || c == KeyCode::Char(
        'q',
    ) {
        redraw(AppModel { show_help: false, ..m })
    } else if c == KeyCode::Char('j') {
        redraw(AppModel { help_scroll: up_one(m.help_scroll), ..m })
    } else if c == KeyCode::Char('k') {
        redraw(AppModel { help_scroll: down_one(m.help_scroll), ..m })
    } else {
        stay(m)
    }
}

/// A key while the open files and sockets panel is open: Esc, Enter, `o`
/// or `q` close it; other keys do nothing.
pub open spec fn handles_step(m: AppModel, key: Key) -> Step {
    let c = key.code;
    if c == KeyCode::Esc || c == KeyCode::Enter || c == KeyCode::Char('o') || c == KeyCode::Char(
        'q',
    ) {
        redraw(AppModel { handles: None, ..m })
    } else {
        stay(m)
    }
}

/// A key while an action waits for confirmation: `y` carries it out on the
/// selected process, `n` or Esc declines it.
pub open spec fn confirm_step(m: AppModel, key: Key, intent: ProcessIntent) -> Step {
    let c = key.code;
    if c == KeyCode::Char('y') || c == KeyCode::Char('Y') {
        with_effect(
            AppModel { confirm: None, ..m },
            match selected_pid_in(m) {
                Some(pid) => Effect::Apply(intent, pid),
                None => Effect::Nothing,
            },
        )
    } else if c == KeyCode::Char('n') || c == KeyCode::Char('N') || c == KeyCode::Esc {
        redraw(AppModel { confirm: None, notice: Some(intent_cancel_label(intent)), ..m })
    } else {
        stay(m)
    }
}

/// A key while the filter prompt is open: Esc or Enter leave it, Backspace
/// and Control-U edit the filter, other characters extend it.
pub open spec fn filter_step(m: AppModel, key: Key) -> Step {
    let c = key.code;
    if c == KeyCode::Esc || c == KeyCode::Enter {
        redraw(AppModel { filter_mode: false, ..m })
    } else if c == KeyCode::Backspace {
        with_effect(AppModel { filter: without_last(m.filter), ..m }, Effect::Refilter)
    } else if c == KeyCode::Char('u') && key.ctrl {
        with_effect(AppModel { filter: Seq::empty(), ..m }, Effect::Refilter)
    } else {
        match c {
            KeyCode::Char(ch) => if !key.ctrl {
                with_effect(AppModel { filter: m.filter.push(ch), ..m }, Effect::Refilter)
            } else {
                stay(m)
            },
            _ => stay(m),
        }
    }
}

/// Sorting by `key`: the same key again reverses the direction; another key
/// starts in direction `descending`.
pub open spec fn set_sort_step(m: AppModel, key: SortKey, descending: bool) -> Step {
    if m.sort_key == key {
        with_effect(AppModel { sort_desc: !m.sort_desc, ..m }, Effect::Rebuild)
    } else {
        with_effect(AppModel { sort_key: key, sort_desc: descending, ..m }, Effect::Rebuild)
    }
}

/// Moving on to the next sort key in its default direction.
pub open spec fn cycle_sort_step(m: AppModel) -> Step {
    let key = next_sort_key(m.sort_key);
    with_effect(AppModel { sort_key: key, sort_desc: sort_default_desc(key), ..m }, Effect::Rebuild)
}

/// Clicking a header that sorts by `key`: descending first, then ascending,
/// then on to the next key.
pub open spec fn header_sort_step(m: AppModel, key: SortKey) -> Step {
    if m.sort_key != key {
        with_effect(AppModel { sort_key: key, sort_desc: true, ..m }, Effect::Rebuild)
    } else if m.sort_desc {
        with_effect(AppModel { sort_desc: false, ..m }, Effect::Rebuild)
    } else {
        cycle_sort_step(m)
    }
}

/// Switching to view `tab`, with its default sort key and direction.
pub open spec fn set_tab_step(m: AppModel, tab: Tab) -> Step {
    if m.tab == tab {
        stay(m)
    } else {
        let key = tab_default_sort(tab);
        with_effect(
            AppModel { tab, sort_key: key, sort_desc: sort_default_desc(key), ..m },
            Effect::Rebuild,
        )
    }
}

/// The view after `tab` in display order, wrapping around.
pub open spec fn next_tab_of(tab: Tab) -> Tab {
    tab_order()[(tab_index(tab) + 1) % 6]
}

/// The view before `tab` in display order, wrapping around.
pub open spec fn previous_tab_of(tab: Tab) -> Tab {
    tab_order()[(tab_index(tab) + 5) % 6]
}

/// Asking to confirm `intent` on the selected process; without a selected
/// process nothing happens.
pub open spec fn begin_action_step(m: AppModel, intent: ProcessIntent) -> Step {
    if selected_pid_in(m) is Some {
        redraw(AppModel { confirm: Some(intent), ..m })
    } else {
        stay(m)
    }
}

/// Changing the refresh interval, with a notice saying so.
pub open spec fn interval_step(m: AppModel, faster: bool) -> Step {
    let next = if faster {
        faster_interval(m.interval_ms)
    } else {
        slower_interval(m.interval_ms)
    };
    redraw(AppModel { interval_ms: next, notice: Some(interval_notice(next)), ..m })
}

/// Control-U outside the prompt: an active filter is cleared, with a notice.
pub open spec fn clear_filter_step(m: AppModel) -> Step {
    if m.filter.len() == 0 {
        stay(m)
    } else {
        with_effect(
            AppModel { filter: Seq::empty(), notice: Some("filter cleared"@), ..m },
            Effect::Refilter,
        )
    }
}

/// `o`: the open files and sockets panel closes if open; otherwise those of
/// the selected process are read.
pub open spec fn toggle_handles_step(m: AppModel) -> Step {
    if m.handles is Some {
        redraw(AppModel { handles: None, ..m })
    } else {
        match selected_pid_in(m) {
            Some(pid) => with_effect(m, Effect::OpenHandles(pid)),
            None => stay(m),
        }
    }
}

/// The selected position, or the top when nothing is selected.
pub open spec fn selected_or_top(m: AppModel) -> int {
    match m.selected {
        Some(i) => i as int,
        None => 0,
    }
}

/// Moving the selection `amount` rows down, stopping at the last row.
pub open spec fn select_next_step(m: AppModel, amount: int) -> Step {
    if m.visible.len() == 0 {
        stay(m)
    } else {
        let target = selected_or_top(m) + amount;
        let next = if target > m.visible.len() - 1 {
            (m.visible.len() - 1) as usize
        } else {
            target as usize
        };
        Step {
            next: AppModel { selected: Some(next), ..m },
            changed: m.selected != Some(next),
            effect: Effect::Hydrate,
        }
    }
}

/// Moving the selection `amount` rows up, stopping at the first row.
pub open spec fn select_previous_step(m: AppModel, amount: int) -> Step {
    if m.visible.len() == 0 {
        stay(m)
    } else {
        let from = selected_or_top(m);
        let next = if from >= amount {
            (from - amount) as usize
        } else {
            0usize
        };
        Step {
            next: AppModel { selected: Some(next), ..m },
            changed: next != from,
            effect: Effect::Hydrate,
        }
    }
}

/// Selecting row `row` if it is shown.
pub open spec fn select_row_step(m: AppModel, row: usize) -> Step {
    if row < m.visible.len() {
        Step {
            next: AppModel { selected: Some(row), ..m },
            changed: m.selected != Some(row),
            effect: Effect::Hydrate,
        }
    } else {
        stay(m)
    }
}

/// The characters that change what is shown: `q` quits, Control-U clears
/// the filter, Control-J and Control-K scroll the inspector, `?` opens the
/// help, `/` the filter prompt, `i` toggles the inspector, `O` the
/// overview, `o` the open files panel, and `r` refreshes.
pub open spec fn is_view_char(ch: char, ctrl: bool) -> bool {
    ch == 'q' || (ctrl && (ch == 'u' || ch == 'j' || ch == 'k')) || ch == '?' || ch == '/' || ch
        == 'i' || ch == 'O' || ch == 'o' || ch == 'r'
}

/// See [`is_view_char`].
pub open spec fn view_char_step(m: AppModel, ch: char, ctrl: bool) -> Step {
    if ch == 'q' {
        redraw(AppModel { should_quit: true, ..m })
    } else if ch == 'u' && ctrl {
        clear_filter_step(m)
    } else if ch == 'j' && ctrl {
        redraw(AppModel { inspector_scroll: up_one(m.inspector_scroll), ..m })
    } else if ch == 'k' && ctrl {
        redraw(AppModel { inspector_scroll: down_one(m.inspector_scroll), ..m })
    } else if ch == '?' {
        redraw(AppModel { show_help: true, ..m })
    } else if ch == '/' {
        redraw(AppModel { filter_mode: true, ..m })
    } else if ch == 'i' {
        redraw(AppModel { show_details: !m.show_details, ..m })
    } else if ch == 'O' {
        redraw(AppModel { overview_visible: !m.overview_visible, ..m })
    } else if ch == 'o' {
        toggle_handles_step(m)
    } else {
        with_effect(m, Effect::Refresh)
    }
}

/// The characters that sort: `s` cycles, `S` reverses, and `c`, `m`, `e`,
/// `d`, `D`, `n`, `p`, `T`, `u` pick CPU, memory, impact, write, read, name,
/// PID, runtime and user.
pub open spec fn is_sort_char(ch: char) -> bool {
    ch == 's' || ch == 'S' || ch == 'c' || ch == 'm' || ch == 'e' || ch == 'd' || ch == 'D' || ch
        == 'n' || ch == 'p' || ch == 'T' || ch == 'u'
}

/// See [`is_sort_char`].
pub open spec fn sort_char_step(m: AppModel, ch: char) -> Step {
    if ch == 's' {
        cycle_sort_step(m)
    } else if ch == 'S' {
        with_effect(AppModel { sort_desc: !m.sort_desc, ..m }, Effect::Rebuild)
    } else if ch == 'c' {
        set_sort_step(m, SortKey::Cpu, true)
    } else if ch == 'm' {
        set_sort_step(m, SortKey::Memory, true)
    } else if ch == 'e' {
        set_sort_step(m, SortKey::Energy, true)
    } else if ch == 'd' {
        set_sort_step(m, SortKey::DiskWrite, true)
    } else if ch == 'D' {
        set_sort_step(m, SortKey::DiskRead, true)
    } else if ch == 'n' {
        set_sort_step(m, SortKey::Name, false)
    } else if ch == 'p' {
        set_sort_step(m, SortKey::Pid, false)
    } else if ch == 'T' {
        set_sort_step(m, SortKey::Runtime, true)
    } else {
        set_sort_step(m, SortKey::User, false)
    }
}

/// The characters that act: `t`, `f`, `z`, `g`, `[`, `]` ask to confirm an
/// action on the selected process, `+`/`=` and `-` change the refresh
/// interval.
pub open spec fn is_action_char(ch: char) -> bool {
    ch == 't' || ch == 'f' || ch == 'z' || ch == 'g' || ch == '[' || ch == ']' || ch == '+' || ch
        == '=' || ch == '-'
}

/// See [`is_action_char`].
pub open spec fn action_char_step(m: AppModel, ch: char) -> Step {
    if ch == 't' {
        begin_action_step(m, ProcessIntent::Term)
    } else if ch == 'f' {
        begin_action_step(m, ProcessIntent::Kill)
    } else if ch == 'z' {
        begin_action_step(m, ProcessIntent::Stop)
    } else if ch == 'g' {
        begin_action_step(m, ProcessIntent::Continue)
    } else if ch == '[' {
        begin_action_step(m, ProcessIntent::NiceLower)
    } else if ch == ']' {
        begin_action_step(m, ProcessIntent::NiceHigher)
    } else if ch == '+' || ch == '=' {
        interval_step(m, false)
    } else {
        interval_step(m, true)
    }
}

/// The characters that move: `1` to `6` pick a view, `j` and `k` move the
/// selection.
pub open spec fn is_move_char(ch: char) -> bool {
    ch == '1' || ch == '2' || ch == '3' || ch == '4' || ch == '5' || ch == '6' || ch == 'j' || ch
        == 'k'
}

/// See [`is_move_char`].
pub open spec fn move_char_step(m: AppModel, ch: char) -> Step {
    if ch == '1' {
        set_tab_step(m, Tab::Cpu)
    } else if ch == '2' {
        set_tab_step(m, Tab::Memory)
    } else if ch == '3' {
        set_tab_step(m, Tab::Energy)
    } else if ch == '4' {
        set_tab_step(m, Tab::Disk)
    } else if ch == '5' {
        set_tab_step(m, Tab::Network)
    } else if ch == '6' {
        set_tab_step(m, Tab::Movers)
    } else if ch == 'j' {
        select_next_step(m, 1)
    } else {
        select_previous_step(m, 1)
    }
}

/// A character key with nothing covering the table.
pub open spec fn normal_char_step(m: AppModel, ch: char, ctrl: bool) -> Step {
    if is_view_char(ch, ctrl) {
        view_char_step(m, ch, ctrl)
    } else if is_sort_char(ch) {
        sort_char_step(m, ch)
    } else if is_action_char(ch) {
        action_char_step(m, ch)
    } else if is_move_char(ch) {
        move_char_step(m, ch)
    } else {
        stay(m)
    }
}

/// A key with nothing covering the table.
pub open spec fn normal_step(m: AppModel, key: Key) -> Step {
    match key.code {
        KeyCode::Char(ch) => normal_char_step(m, ch, key.ctrl),
        KeyCode::Esc => redraw(AppModel { should_quit: true, ..m }),
        KeyCode::Enter => redraw(AppModel { show_details: !m.show_details, ..m }),
        KeyCode::Tab => set_tab_step(m, next_tab_of(m.tab)),
        KeyCode::BackTab => set_tab_step(m, previous_tab_of(m.tab)),
        KeyCode::Down => select_next_step(m, 1),
        KeyCode::Up => select_previous_step(m, 1),
        KeyCode::PageDown => select_next_step(m, 10),
        KeyCode::PageUp => select_previous_step(m, 10),
        KeyCode::Home => select_row_step_first(m),
        KeyCode::End => select_row_step_last(m),
        _ => stay(m),
    }
}

/// Selecting the first row.
pub open spec fn select_row_step_first(m: AppModel) -> Step {
    if m.visible.len() == 0 {
        stay(m)
    } else {
        select_row_step(m, 0)
    }
}

/// Selecting the last row.
pub open spec fn select_row_step_last(m: AppModel) -> Step {
    if m.visible.len() == 0 {
        stay(m)
    } else {
        select_row_step(m, (m.visible.len() - 1) as usize)
    }
}

/// A key press: Control-C quits from anywhere; otherwise the help, the
/// handles panel, a pending confirmation and the filter prompt, in that
/// order, take the key before the table does.
pub open spec fn key_step(m: AppModel, key: Key) -> Step {
    if is_ctrl_c(key) {
        quit_step(m)
    } else if m.show_help {
        help_step(m, key)
    } else if m.handles is Some {
        handles_step(m, key)
    } else if m.confirm is Some {
        confirm_step(m, key, m.confirm.unwrap())
    } else if m.filter_mode {
        filter_step(m, key)
    } else {
        normal_step(m, key)
    }
}

/// One input: keys as [`key_step`] says; the mouse acts on the table only
/// when nothing covers it.
pub open spec fn step(m: AppModel, input: Input) -> Step {
    match input {
        Input::Key(key) => key_step(m, key),
        Input::ScrollUp => if overlay_open(m) {
            stay(m)
        } else {
            select_previous_step(m, 3)
        },
        Input::ScrollDown => if overlay_open(m) {
            stay(m)
        } else {
            select_next_step(m, 3)
        },
        Input::Click(hit) => if overlay_open(m) {
            stay(m)
        } else {
            match hit {
                crate::table::TableHit::Header(column) => match crate::table::column_key(
                    m.tab,
                    column as int,
                ) {
                    Some(key) => header_sort_step(m, key),
                    None => stay(m),
                },
                crate::table::TableHit::Row(row) => select_row_step(m, row),
                crate::table::TableHit::Outside => stay(m),
            }
        },
        Input::Other => stay(m),
    }
}

} // verus!

verus! {

// ---------------------------------------------------------------------------
// The view state
// ---------------------------------------------------------------------------

/// The changed flag and effect of a step.
pub open spec fn outcome(s: Step) -> (bool, Effect) {
    (s.changed, s.effect)
}

/// The state the monitor starts in.
pub open spec fn initial_model(interval_ms: u64, filter: Seq<char>) -> AppModel {
    AppModel {
        tab: Tab::Cpu,
        sort_key: SortKey::Cpu,
        sort_desc: true,
        filter,
        filter_mode: false,
        show_details: true,
        show_help: false,
        overview_visible: true,
        help_scroll: 0,
        inspector_scroll: 0,
        notice: None,
        confirm: None,
        handles: None,
        interval_ms,
        should_quit: false,
        visible: Seq::empty(),
        selected: None,
    }
}

/// The view state of the monitor: the view and its order, the filter and
/// its prompt, the panels, the pending action, the notice, the refresh
/// interval, and the process ids of the rows shown, with the selection.
pub struct App {
    pub tab: Tab,
    pub sort_key: SortKey,
    pub sort_desc: bool,
    pub filter: String,
    pub filter_mode: bool,
    pub show_details: bool,
    pub show_help: bool,
    pub overview_visible: bool,
    pub help_scroll: usize,
    pub inspector_scroll: usize,
    pub notice: Option<Notice>,
    pub confirm: Option<ProcessIntent>,
    pub handles: Option<HandlesView>,
    pub interval_ms: u64,
    pub should_quit: bool,
    pub visible: Vec<u32>,
    pub selected: Option<usize>,
}

/// The text of a notice, if any.
pub open spec fn notice_text(n: Option<Notice>) -> Option<Seq<char>> {
    match n {
        Some(notice) => Some(notice@),
        None => None,
    }
}

impl App {
    /// This state as plain values.
    pub open spec fn model(&self) -> AppModel {
        AppModel {
            tab: self.tab,
            sort_key: self.sort_key,
            sort_desc: self.sort_desc,
            filter: self.filter@,
            filter_mode: self.filter_mode,
            show_details: self.show_details,
            show_help: self.show_help,
            overview_visible: self.overview_visible,
            help_scroll: self.help_scroll,
            inspector_scroll: self.inspector_scroll,
            notice: notice_text(self.notice),
            confirm: self.confirm,
            handles: self.handles,
            interval_ms: self.interval_ms,
            should_quit: self.should_quit,
            visible: self.visible@,
            selected: self.selected,
        }
    }

    /// The selection points at a shown row, if at all.
    pub open spec fn wf(&self) -> bool {
        model_wf(self.model())
    }

    /// The monitor at start: the CPU view sorted by CPU, descending, with
    /// the given filter, the inspector and overview shown, and no rows yet.
    pub fn new(interval_ms: u64, initial_filter: Option<String>) -> (r: App)
        ensures
            r.wf(),
            r.model() == initial_model(
                interval_ms,
                match initial_filter {
                    Some(f) => f@,
                    None => Seq::<char>::empty(),
                },
            ),
    {
        let filter = match initial_filter {
            Some(f) => f,
            None => String::new(),
        };
        App {
            tab: Tab::Cpu,
            sort_key: SortKey::Cpu,
            sort_desc: true,
            filter,
            filter_mode: false,
            show_details: true,
            show_help: false,
            overview_visible: true,
            help_scroll: 0,
            inspector_scroll: 0,
            notice: None,
            confirm: None,
            handles: None,
            interval_ms,
            should_quit: false,
            visible: Vec::new(),
            selected: None,
        }
    }

    /// The process id of the selected row, if a row is selected.
    pub fn selected_pid(&self) -> (r: Option<u32>)
        ensures
            r == selected_pid_in(self.model()),
    {
        match self.selected {
            Some(i) => if i < self.visible.len() {
                Some(self.visible[i])
            } else {
                None
            },
            None => None,
        }
    }

    /// The number of rows shown.
    pub fn visible_count(&self) -> (r: usize)
        ensures
            r == self.visible@.len(),
    {
        self.visible.len()
    }

    /// The selected row counted from 1, if a shown row is selected.
    pub fn selected_position(&self) -> (r: Option<usize>)
        ensures
            match self.selected {
                Some(i) => if i < self.visible@.len() {
                    r == Some((i + 1) as usize)
                } else {
                    r is None
                },
                None => r is None,
            },
    {
        match self.selected {
            Some(i) => if i < self.visible.len() {
                Some(i + 1)
            } else {
                None
            },
            None => None,
        }
    }

    /// The refresh interval in milliseconds.
    pub fn interval(&self) -> (r: u64)
        ensures
            r == self.interval_ms,
    {
        self.interval_ms
    }

    /// The open files and sockets panel, if open.
    pub fn handles_view(&self) -> (r: Option<&HandlesView>)
        ensures
            match self.handles {
                Some(h) => r == Some(&h),
                None => r is None,
            },
    {
        self.handles.as_ref()
    }

    fn quit(&mut self)
        ensures
            final(self).model() == quit_step(old(self).model()).next,
    {
        self.should_quit = true;
        self.confirm = None;
        self.filter_mode = false;
        self.show_help = false;
        self.handles = None;
    }

    fn help_key(&mut self, key: Key) -> (r: (bool, Effect))
        ensures
            final(self).model() == help_step(old(self).model(), key).next,
            r == outcome(help_step(old(self).model(), key)),
    {
        match key.code {
            KeyCode::Esc | KeyCode::Enter | KeyCode::Char('?') | KeyCode::Char('q') => {
                self.show_help = false;
                (true, Effect::Nothing)
            },
            KeyCode::Char('j') => {
                if self.help_scroll < usize::MAX {
                    self.help_scroll = self.help_scroll + 1;
                }
                (true, Effect::Nothing)
            },
            KeyCode::Char('k') => {
                if self.help_scroll > 0 {
                    self.help_scroll = self.help_scroll - 1;
                }
                (true, Effect::Nothing)
            },
            _ => (false, Effect::Nothing),
        }
    }

    fn handles_key(&mut self, key: Key) -> (r: (bool, Effect))
        ensures
            final(self).model() == handles_step(old(self).model(), key).next,
            r == outcome(handles_step(old(self).model(), key)),
    {
        match key.code {
            KeyCode::Esc | KeyCode::Enter | KeyCode::Char('o') | KeyCode::Char('q') => {
                self.handles = None;
                (true, Effect::Nothing)
            },
            _ => (false, Effect::Nothing),
        }
    }

    fn confirm_key(&mut self, key: Key, intent: ProcessIntent) -> (r: (bool, Effect))
        ensures
            final(self).model() == confirm_step(old(self).model(), key, intent).next,
            r == outcome(confirm_step(old(self).model(), key, intent)),
    {
        match key.code {
            KeyCode::Char('y') | KeyCode::Char('Y') => {
                let effect = match self.selected_pid() {
                    Some(pid) => Effect::Apply(intent, pid),
                    None => Effect::Nothing,
                };
                self.confirm = None;
                (true, effect)
            },
            KeyCode::Char('n') | KeyCode::Char('N') | KeyCode::Esc => {
                self.confirm = None;
                self.notice = Some(Notice::new(intent.cancel_label().to_string()));
                (true, Effect::Nothing)
            },
            _ => (false, Effect::Nothing),
        }
    }

    fn filter_key(&mut self, key: Key) -> (r: (bool, Effect))
        ensures
            final(self).model() == filter_step(old(self).model(), key).next,
            r == outcome(filter_step(old(self).model(), key)),
    {
        match key.code {
            KeyCode::Esc | KeyCode::Enter => {
                self.filter_mode = false;
                (true, Effect::Nothing)
            },
            KeyCode::Backspace => {
                let mut chars = crate::text::chars_of(self.filter.as_str());
                if chars.len() > 0 {
                    chars.pop();
                }
                self.filter = crate::text::string_of(chars.as_slice());
                (true, Effect::Refilter)
            },
            KeyCode::Char(ch) => {
                if ch == 'u' && key.ctrl {
                    self.filter = String::new();
                    (true, Effect::Refilter)
                } else if !key.ctrl {
                    self.filter.push(ch);
                    (true, Effect::Refilter)
                } else {
                    (false, Effect::Nothing)
                }
            },
            _ => (false, Effect::Nothing),
        }
    }
}

} // verus!

verus! {

impl App {
    fn set_sort(&mut self, key: SortKey, descending: bool) -> (r: (bool, Effect))
        ensures
            final(self).model() == set_sort_step(old(self).model(), key, descending).next,
            r == outcome(set_sort_step(old(self).model(), key, descending)),
    {
        if self.sort_key == key {
            self.sort_desc = !self.sort_desc;
        } else {
            self.sort_key = key;
            self.sort_desc = descending;
        }
        (true, Effect::Rebuild)
    }

    fn cycle_sort(&mut self) -> (r: (bool, Effect))
        ensures
            final(self).model() == cycle_sort_step(old(self).model()).next,
            r == outcome(cycle_sort_step(old(self).model())),
    {
        let key = self.sort_key.next_in_cycle();
        self.sort_key = key;
        self.sort_desc = key.default_desc();
        (true, Effect::Rebuild)
    }

    fn header_sort(&mut self, key: SortKey) -> (r: (bool, Effect))
        ensures
            final(self).model() == header_sort_step(old(self).model(), key).next,
            r == outcome(header_sort_step(old(self).model(), key)),
    {
        if self.sort_key != key {
            self.sort_key = key;
            self.sort_desc = true;
            (true, Effect::Rebuild)
        } else if self.sort_desc {
            self.sort_desc = false;
            (true, Effect::Rebuild)
        } else {
            self.cycle_sort()
        }
    }

    fn set_tab(&mut self, tab: Tab) -> (r: (bool, Effect))
        ensures
            final(self).model() == set_tab_step(old(self).model(), tab).next,
            r == outcome(set_tab_step(old(self).model(), tab)),
    {
        if self.tab == tab {
            return (false, Effect::Nothing);
        }
        self.tab = tab;
        self.sort_key = tab.default_sort();
        self.sort_desc = self.sort_key.default_desc();
        (true, Effect::Rebuild)
    }

    fn next_tab(&mut self) -> (r: (bool, Effect))
        ensures
            final(self).model() == set_tab_step(
                old(self).model(),
                next_tab_of(old(self).tab),
            ).next,
            r == outcome(set_tab_step(old(self).model(), next_tab_of(old(self).tab))),
    {
        let index = self.tab.index();
        self.set_tab(Tab::at((index + 1) % 6))
    }

    fn previous_tab(&mut self) -> (r: (bool, Effect))
        ensures
            final(self).model() == set_tab_step(
                old(self).model(),
                previous_tab_of(old(self).tab),
            ).next,
            r == outcome(set_tab_step(old(self).model(), previous_tab_of(old(self).tab))),
    {
        let index = self.tab.index();
        self.set_tab(Tab::at((index + 5) % 6))
    }

    fn begin_action(&mut self, intent: ProcessIntent) -> (r: (bool, Effect))
        ensures
            final(self).model() == begin_action_step(old(self).model(), intent).next,
            r == outcome(begin_action_step(old(self).model(), intent)),
    {
        if self.selected_pid().is_some() {
            self.confirm = Some(intent);
            (true, Effect::Nothing)
        } else {
            (false, Effect::Nothing)
        }
    }

    fn adjust_interval(&mut self, faster: bool) -> (r: (bool, Effect))
        ensures
            final(self).model() == interval_step(old(self).model(), faster).next,
            r == outcome(interval_step(old(self).model(), faster)),
    {
        let millis = self.interval_ms;
        let next: u64 = if faster {
            let less: u64 = if millis >= 250 {
                millis - 250
            } else {
                0
            };
            if less < crate::cli::MIN_INTERVAL_MS {
                crate::cli::MIN_INTERVAL_MS
            } else {
                less
            }
        } else {
            if millis >= crate::cli::MAX_INTERVAL_MS - 250 {
                crate::cli::MAX_INTERVAL_MS
            } else {
                millis + 250
            }
        };
        self.interval_ms = next;
        let mut text = String::from_str("refresh interval: ");
        push_decimal(&mut text, next);
        text.append(" ms");
        assert(text@ =~= interval_notice(next));
        self.notice = Some(Notice::new(text));
        (true, Effect::Nothing)
    }

    fn clear_filter(&mut self) -> (r: (bool, Effect))
        ensures
            final(self).model() == clear_filter_step(old(self).model()).next,
            r == outcome(clear_filter_step(old(self).model())),
    {
        if self.filter.as_str().unicode_len() == 0 {
            return (false, Effect::Nothing);
        }
        self.filter = String::new();
        self.notice = Some(Notice::new(String::from_str("filter cleared")));
        (true, Effect::Refilter)
    }

    fn toggle_handles(&mut self) -> (r: (bool, Effect))
        ensures
            final(self).model() == toggle_handles_step(old(self).model()).next,
            r == outcome(toggle_handles_step(old(self).model())),
    {
        if self.handles.is_some() {
            self.handles = None;
            return (true, Effect::Nothing);
        }
        match self.selected_pid() {
            Some(pid) => (true, Effect::OpenHandles(pid)),
            None => (false, Effect::Nothing),
        }
    }

    fn select_next(&mut self, amount: usize) -> (r: (bool, Effect))
        requires
            old(self).wf(),
        ensures
            final(self).model() == select_next_step(old(self).model(), amount as int).next,
            r == outcome(select_next_step(old(self).model(), amount as int)),
    {
        let len = self.visible.len();
        if len == 0 {
            return (false, Effect::Nothing);
        }
        let previous = self.selected;
        let from: usize = match previous {
            Some(i) => i,
            None => 0,
        };
        let next: usize = if amount >= len - 1 - from {
            len - 1
        } else {
            from + amount
        };
        self.selected = Some(next);
        let changed = match previous {
            Some(i) => i != next,
            None => true,
        };
        (changed, Effect::Hydrate)
    }

    fn select_previous(&mut self, amount: usize) -> (r: (bool, Effect))
        requires
            old(self).wf(),
        ensures
            final(self).model() == select_previous_step(old(self).model(), amount as int).next,
            r == outcome(select_previous_step(old(self).model(), amount as int)),
    {
        if self.visible.len() == 0 {
            return (false, Effect::Nothing);
        }
        let from: usize = match self.selected {
            Some(i) => i,
            None => 0,
        };
        let next: usize = if from >= amount {
            from - amount
        } else {
            0
        };
        self.selected = Some(next);
        (next != from, Effect::Hydrate)
    }

    fn select_row(&mut self, row: usize) -> (r: (bool, Effect))
        ensures
            final(self).model() == select_row_step(old(self).model(), row).next,
            r == outcome(select_row_step(old(self).model(), row)),
    {
        if row < self.visible.len() {
            let changed = match self.selected {
                Some(i) => i != row,
                None => true,
            };
            self.selected = Some(row);
            (changed, Effect::Hydrate)
        } else {
            (false, Effect::Nothing)
        }
    }

    fn select_first(&mut self) -> (r: (bool, Effect))
        ensures
            final(self).model() == select_row_step_first(old(self).model()).next,
            r == outcome(select_row_step_first(old(self).model())),
    {
        if self.visible.len() == 0 {
            return (false, Effect::Nothing);
        }
        self.select_row(0)
    }

    fn select_last(&mut self) -> (r: (bool, Effect))
        ensures
            final(self).model() == select_row_step_last(old(self).model()).next,
            r == outcome(select_row_step_last(old(self).model())),
    {
        let len = self.visible.len();
        if len == 0 {
            return (false, Effect::Nothing);
        }
        self.select_row(len - 1)
    }
}

} // verus!

verus! {

impl App {
    fn view_char_key(&mut self, ch: char, ctrl: bool) -> (r: (bool, Effect))
        requires
            is_view_char(ch, ctrl),
        ensures
            final(self).model() == view_char_step(old(self).model(), ch, ctrl).next,
            r == outcome(view_char_step(old(self).model(), ch, ctrl)),
    {
        if ch == 'q' {
            self.should_quit = true;
            (true, Effect::Nothing)
        } else if ch == 'u' && ctrl {
            self.clear_filter()
        } else if ch == 'j' && ctrl {
            if self.inspector_scroll < usize::MAX {
                self.inspector_scroll = self.inspector_scroll + 1;
            }
            (true, Effect::Nothing)
        } else if ch == 'k' && ctrl {
            if self.inspector_scroll > 0 {
                self.inspector_scroll = self.inspector_scroll - 1;
            }
            (true, Effect::Nothing)
        } else if ch == '?' {
            self.show_help = true;
            (true, Effect::Nothing)
        } else if ch == '/' {
            self.filter_mode = true;
            (true, Effect::Nothing)
        } else if ch == 'i' {
            self.show_details = !self.show_details;
            (true, Effect::Nothing)
        } else if ch == 'O' {
            self.overview_visible = !self.overview_visible;
            (true, Effect::Nothing)
        } else if ch == 'o' {
            self.toggle_handles()
        } else {
            (true, Effect::Refresh)
        }
    }

    fn sort_char_key(&mut self, ch: char) -> (r: (bool, Effect))
        requires
            is_sort_char(ch),
        ensures
            final(self).model() == sort_char_step(old(self).model(), ch).next,
            r == outcome(sort_char_step(old(self).model(), ch)),
    {
        if ch == 's' {
            self.cycle_sort()
        } else if ch == 'S' {
            self.sort_desc = !self.sort_desc;
            (true, Effect::Rebuild)
        } else if ch == 'c' {
            self.set_sort(SortKey::Cpu, true)
        } else if ch == 'm' {
            self.set_sort(SortKey::Memory, true)
        } else if ch == 'e' {
            self.set_sort(SortKey::Energy, true)
        } else if ch == 'd' {
            self.set_sort(SortKey::DiskWrite, true)
        } else if ch == 'D' {
            self.set_sort(SortKey::DiskRead, true)
        } else if ch == 'n' {
            self.set_sort(SortKey::Name, false)
        } else if ch == 'p' {
            self.set_sort(SortKey::Pid, false)
        } else if ch == 'T' {
            self.set_sort(SortKey::Runtime, true)
        } else {
            self.set_sort(SortKey::User, false)
        }
    }

    fn action_char_key(&mut self, ch: char) -> (r: (bool, Effect))
        requires
            is_action_char(ch),
        ensures
            final(self).model() == action_char_step(old(self).model(), ch).next,
            r == outcome(action_char_step(old(self).model(), ch)),
    {
        if ch == 't' {
            self.begin_action(ProcessIntent::Term)
        } else if ch == 'f' {
            self.begin_action(ProcessIntent::Kill)
        } else if ch == 'z' {
            self.begin_action(ProcessIntent::Stop)
        } else if ch == 'g' {
            self.begin_action(ProcessIntent::Continue)
        } else if ch == '[' {
            self.begin_action(ProcessIntent::NiceLower)
        } else if ch == ']' {
            self.begin_action(ProcessIntent::NiceHigher)
        } else if ch == '+' || ch == '=' {
            self.adjust_interval(false)
        } else {
            self.adjust_interval(true)
        }
    }

    fn move_char_key(&mut self, ch: char) -> (r: (bool, Effect))
        requires
            old(self).wf(),
            is_move_char(ch),
        ensures
            final(self).model() == move_char_step(old(self).model(), ch).next,
            r == outcome(move_char_step(old(self).model(), ch)),
    {
        if ch == '1' {
            self.set_tab(Tab::Cpu)
        } else if ch == '2' {
            self.set_tab(Tab::Memory)
        } else if ch == '3' {
            self.set_tab(Tab::Energy)
        } else if ch == '4' {
            self.set_tab(Tab::Disk)
        } else if ch == '5' {
            self.set_tab(Tab::Network)
        } else if ch == '6' {
            self.set_tab(Tab::Movers)
        } else if ch == 'j' {
            self.select_next(1)
        } else {
            self.select_previous(1)
        }
    }

    fn normal_char_key(&mut self, ch: char, ctrl: bool) -> (r: (bool, Effect))
        requires
            old(self).wf(),
        ensures
            final(self).model() == normal_char_step(old(self).model(), ch, ctrl).next,
            r == outcome(normal_char_step(old(self).model(), ch, ctrl)),
    {
        if ch == 'q' || (ctrl && (ch == 'u' || ch == 'j' || ch == 'k')) || ch == '?' || ch == '/'
            || ch == 'i' || ch == 'O' || ch == 'o' || ch == 'r' {
            self.view_char_key(ch, ctrl)
        } else if ch == 's' || ch == 'S' || ch == 'c' || ch == 'm' || ch == 'e' || ch == 'd' || ch
            == 'D' || ch == 'n' || ch == 'p' || ch == 'T' || ch == 'u' {
            self.sort_char_key(ch)
        } else if ch == 't' || ch == 'f' || ch == 'z' || ch == 'g' || ch == '[' || ch == ']' || ch
            == '+' || ch == '=' || ch == '-' {
            self.action_char_key(ch)
        } else if ch == '1' || ch == '2' || ch == '3' || ch == '4' || ch == '5' || ch == '6' || ch
            == 'j' || ch == 'k' {
            self.move_char_key(ch)
        } else {
            (false, Effect::Nothing)
        }
    }

    fn normal_key(&mut self, key: Key) -> (r: (bool, Effect))
        requires
            old(self).wf(),
        ensures
            final(self).model() == normal_step(old(self).model(), key).next,
            r == outcome(normal_step(old(self).model(), key)),
    {
        match key.code {
            KeyCode::Char(ch) => self.normal_char_key(ch, key.ctrl),
            KeyCode::Esc => {
                self.should_quit = true;
                (true, Effect::Nothing)
            },
            KeyCode::Enter => {
                self.show_details = !self.show_details;
                (true, Effect::Nothing)
            },
            KeyCode::Tab => self.next_tab(),
            KeyCode::BackTab => self.previous_tab(),
            KeyCode::Down => self.select_next(1),
            KeyCode::Up => self.select_previous(1),
            KeyCode::PageDown => self.select_next(10),
            KeyCode::PageUp => self.select_previous(10),
            KeyCode::Home => self.select_first(),
            KeyCode::End => self.select_last(),
            _ => (false, Effect::Nothing),
        }
    }

    /// Responds to one input, as [`step`] says: returns whether the screen
    /// changed and the outside work to do next.
    pub fn handle_input(&mut self, input: Input) -> (r: (bool, Effect))
        requires
            old(self).wf(),
        ensures
            final(self).wf(),
            final(self).model() == step(old(self).model(), input).next,
            r == outcome(step(old(self).model(), input)),
    {
        let ghost m = self.model();
        let covered = self.show_help || self.handles.is_some() || self.confirm.is_some()
            || self.filter_mode;
        let r = match input {
            Input::Key(key) => {
                if key.ctrl && (key.code == KeyCode::Char('c') || key.code == KeyCode::Char('C')) {
                    self.quit();
                    (true, Effect::Nothing)
                } else if self.show_help {
                    self.help_key(key)
                } else if self.handles.is_some() {
                    self.handles_key(key)
                } else if let Some(intent) = self.confirm {
                    self.confirm_key(key, intent)
                } else if self.filter_mode {
                    self.filter_key(key)
                } else {
                    self.normal_key(key)
                }
            },
            Input::ScrollUp => if covered {
                (false, Effect::Nothing)
            } else {
                self.select_previous(3)
            },
            Input::ScrollDown => if covered {
                (false, Effect::Nothing)
            } else {
                self.select_next(3)
            },
            Input::Click(_) if covered => (false, Effect::Nothing),
            Input::Click(hit) => match hit {
                crate::table::TableHit::Header(column) => match crate::table::column_sort_key(
                    self.tab,
                    column,
                ) {
                    Some(key) => self.header_sort(key),
                    None => (false, Effect::Nothing),
                },
                crate::table::TableHit::Row(row) => self.select_row(row),
                crate::table::TableHit::Outside => (false, Effect::Nothing),
            },
            Input::Other => (false, Effect::Nothing),
        };
        proof {
            lemma_step_keeps_selection(m, input);
        }
        r
    }
}

/// Every input leaves the selection on a shown row, or nothing selected.
#[verifier::spinoff_prover]
#[verifier::rlimit(40)]
pub proof fn lemma_step_keeps_selection(m: AppModel, input: Input)
    requires
        model_wf(m),
    ensures
        model_wf(step(m, input).next),
{
    match input {
        Input::Key(key) => {
            if !is_ctrl_c(key) && !m.show_help && m.handles is None && m.confirm is None
                && !m.filter_mode {
                if let KeyCode::Char(ch) = key.code {
                    lemma_char_keeps_selection(m, ch, key.ctrl);
                }
            }
        },
        _ => {},
    }
}

/// Character keys leave the selection on a shown row, or nothing selected.
proof fn lemma_char_keeps_selection(m: AppModel, ch: char, ctrl: bool)
    requires
        model_wf(m),
    ensures
        model_wf(normal_char_step(m, ch, ctrl).next),
{
    if is_view_char(ch, ctrl) {
        lemma_view_char_keeps_selection(m, ch, ctrl);
    } else if is_sort_char(ch) {
        lemma_sort_char_keeps_selection(m, ch);
    } else if is_action_char(ch) {
        lemma_action_char_keeps_selection(m, ch);
    } else if is_move_char(ch) {
        lemma_move_char_keeps_selection(m, ch);
    }
}

proof fn lemma_view_char_keeps_selection(m: AppModel, ch: char, ctrl: bool)
    requires
        model_wf(m),
    ensures
        model_wf(view_char_step(m, ch, ctrl).next),
{
}

proof fn lemma_sort_char_keeps_selection(m: AppModel, ch: char)
    requires
        model_wf(m),
    ensures
        model_wf(sort_char_step(m, ch).next),
{
}

proof fn lemma_action_char_keeps_selection(m: AppModel, ch: char)
    requires
        model_wf(m),
    ensures
        model_wf(action_char_step(m, ch).next),
{
}

proof fn lemma_move_char_keeps_selection(m: AppModel, ch: char)
    requires
        model_wf(m),
    ensures
        model_wf(move_char_step(m, ch).next),
{
}

} // verus!

verus! {

// ---------------------------------------------------------------------------
// Rows, outcomes of outside work, and timing
// ---------------------------------------------------------------------------

/// `i` is where `x` first occurs in `s`.
pub open spec fn first_at(s: Seq<u32>, x: u32, i: int) -> bool {
    0 <= i < s.len() && s[i] == x && forall|j: int| 0 <= j < i ==> s[j] != x
}

/// The selection after the rows shown became `visible`: none when no row is
/// shown; else the first row of process `keep` when it is shown; else the
/// previously selected position (the top if none), moved up to the last row.
pub open spec fn reselection(
    visible: Seq<u32>,
    keep: Option<u32>,
    previous: Option<usize>,
    r: Option<usize>,
) -> bool {
    let fallback: int = match previous {
        Some(i) => i as int,
        None => 0,
    };
    let clamped: int = if fallback > visible.len() - 1 {
        visible.len() - 1
    } else {
        fallback
    };
    if visible.len() == 0 {
        r is None
    } else {
        match r {
            Some(n) => match keep {
                Some(pid) => if visible.contains(pid) {
                    first_at(visible, pid, n as int)
                } else {
                    n == clamped
                },
                None => n == clamped,
            },
            None => false,
        }
    }
}

/// Where `pid` first occurs in `visible`, if at all.
pub fn position_of(visible: &Vec<u32>, pid: u32) -> (r: Option<usize>)
    ensures
        r matches Some(i) ==> first_at(visible@, pid, i as int),
        r is None ==> !visible@.contains(pid),
{
    let mut i: usize = 0;
    while i < visible.len()
        invariant
            i <= visible.len(),
            forall|j: int| 0 <= j < i ==> visible@[j] != pid,
        decreases visible.len() - i,
    {
        if visible[i] == pid {
            return Some(i);
        }
        i = i + 1;
    }
    None
}

/// The selection after the rows shown became `visible`, keeping process
/// `keep` selected where it is still shown; see [`reselection`].
pub fn reselect(visible: &Vec<u32>, keep: Option<u32>, previous: Option<usize>) -> (r: Option<
    usize,
>)
    ensures
        reselection(visible@, keep, previous, r),
{
    let len = visible.len();
    if len == 0 {
        return None;
    }
    let found = match keep {
        Some(pid) => position_of(visible, pid),
        None => None,
    };
    match found {
        Some(i) => Some(i),
        None => {
            let fallback = match previous {
                Some(i) => i,
                None => 0,
            };
            Some(
                if fallback > len - 1 {
                    len - 1
                } else {
                    fallback
                },
            )
        },
    }
}

impl App {
    /// The rows shown become `visible` (process ids in display order), and
    /// the selection follows process `keep`; see [`reselection`]. Returns
    /// whether a row is selected, whose details are then to be loaded.
    pub fn show_rows(&mut self, visible: Vec<u32>, keep: Option<u32>) -> (r: bool)
        ensures
            final(self).wf(),
            reselection(visible@, keep, old(self).selected, final(self).selected),
            final(self).model() == (AppModel {
                visible: visible@,
                selected: final(self).selected,
                ..old(self).model()
            }),
            r == (final(self).selected is Some),
    {
        let selected = reselect(&visible, keep, self.selected);
        self.visible = visible;
        self.selected = selected;
        selected.is_some()
    }

    /// The open files and sockets panel shows `view`.
    pub fn open_handles(&mut self, view: HandlesView)
        ensures
            final(self).model() == (AppModel { handles: Some(view), ..old(self).model() }),
    {
        self.handles = Some(view);
    }

    /// Takes in how a confirmed action went: its message on success, then a
    /// refresh; its error otherwise.
    pub fn finish_action(&mut self, result: crate::error::Result<String>) -> (r: Effect)
        ensures
            match result {
                Ok(message) => final(self).model() == (AppModel {
                    notice: Some(message@),
                    ..old(self).model()
                }) && r == Effect::Refresh,
                Err(e) => final(self).model() == (AppModel {
                    notice: Some(e@),
                    ..old(self).model()
                }) && r == Effect::Nothing,
            },
    {
        match result {
            Ok(message) => {
                self.notice = Some(Notice::new(message));
                Effect::Refresh
            },
            Err(error) => {
                self.notice = Some(Notice::new(error.text()));
                Effect::Nothing
            },
        }
    }

    /// Drops the notice if its time is up after `elapsed_ns` nanoseconds;
    /// returns whether it did. See [`notice_cleared`].
    pub fn clear_notice_after(&mut self, elapsed_ns: u128) -> (r: bool)
        ensures
            (r, final(self).model()) == notice_cleared(old(self).model(), elapsed_ns as nat),
    {
        let expired = match &self.notice {
            Some(_) => Notice::remaining_after(elapsed_ns) == 0,
            None => false,
        };
        if expired {
            self.notice = None;
        }
        expired
    }

    /// Drops the notice once its time is up; returns whether it did. The
    /// time passed since the notice was made is read from the clock, and
    /// the outcome is [`notice_cleared`] for that reading.
    pub fn clear_expired_notice(&mut self) -> (r: bool)
        ensures
            old(self).notice is None ==> !r && final(self).model() == old(self).model(),
            old(self).notice is Some ==> exists|d: std::time::Duration|
                (r, final(self).model()) == notice_cleared(
                    old(self).model(),
                    #[trigger] duration_nanos(d) as nat,
                ),
    {
        let elapsed: u128 = match &self.notice {
            Some(notice) => notice.age(),
            None => 0,
        };
        let ghost before = self.model();
        let r = self.clear_notice_after(elapsed);
        proof {
            if before.notice is Some {
                let d = choose|d: std::time::Duration| elapsed == duration_nanos(d);
                assert((r, self.model()) == notice_cleared(before, duration_nanos(d) as nat));
            }
        }
        r
    }

    /// How long to wait for input, in nanoseconds, when the last refresh was
    /// `since_refresh_ns` ago and the notice, if any, is `notice_age_ns`
    /// old. See [`poll_wait`].
    pub fn poll_timeout_after(&self, since_refresh_ns: u128, notice_age_ns: u128) -> (r: u128)
        ensures
            r as nat == poll_wait(self.model(), since_refresh_ns, notice_age_ns as nat),
    {
        let interval: u128 = self.interval_ms as u128 * 1_000_000;
        let refresh: u128 = if interval > since_refresh_ns {
            interval - since_refresh_ns
        } else {
            0
        };
        match &self.notice {
            Some(_) => {
                let left = Notice::remaining_after(notice_age_ns) as u128;
                if left < refresh {
                    left
                } else {
                    refresh
                }
            },
            None => refresh,
        }
    }

    /// How long to wait for input, in nanoseconds, when the last refresh was
    /// `since_refresh_ns` ago: until the next refresh, or until the notice
    /// runs out by the clock if that comes first.
    pub fn poll_timeout_ns(&self, since_refresh_ns: u128) -> (r: u128)
        ensures
            self.notice is None ==> r == refresh_left(self.interval_ms, since_refresh_ns),
            self.notice is Some ==> exists|d: std::time::Duration|
                r as nat == poll_wait(
                    self.model(),
                    since_refresh_ns,
                    #[trigger] duration_nanos(d) as nat,
                ),
    {
        let age: u128 = match &self.notice {
            Some(notice) => notice.age(),
            None => 0,
        };
        let r = self.poll_timeout_after(since_refresh_ns, age);
        proof {
            if self.notice is Some {
                let d = choose|d: std::time::Duration| age == duration_nanos(d);
                assert(r as nat == poll_wait(self.model(), since_refresh_ns, duration_nanos(d) as nat));
            }
        }
        r
    }

    /// Keeps the help scroll within a text of `line_count` lines shown
    /// `view_height` at a time, so that the last page is the furthest one.
    pub fn fit_help_scroll(&mut self, line_count: usize, view_height: usize)
        ensures
            final(self).model() == (AppModel {
                help_scroll: fitted_scroll(old(self).help_scroll, line_count, view_height),
                ..old(self).model()
            }),
    {
        self.help_scroll = fit_scroll(self.help_scroll, line_count, view_height);
    }

    /// Keeps the inspector scroll within a text of `line_count` lines shown
    /// `view_height` at a time, so that the last page is the furthest one.
    pub fn fit_inspector_scroll(&mut self, line_count: usize, view_height: usize)
        ensures
            final(self).model() == (AppModel {
                inspector_scroll: fitted_scroll(old(self).inspector_scroll, line_count, view_height),
                ..old(self).model()
            }),
    {
        self.inspector_scroll = fit_scroll(self.inspector_scroll, line_count, view_height);
    }
}

/// A scroll offset kept at most at the first line of the last page.
pub open spec fn fitted_scroll(scroll: usize, line_count: usize, view_height: usize) -> usize {
    let furthest: int = if line_count > view_height {
        line_count - view_height
    } else {
        0
    };
    if scroll > furthest {
        furthest as usize
    } else {
        scroll
    }
}

/// A scroll offset, as [`fitted_scroll`] describes.
pub fn fit_scroll(scroll: usize, line_count: usize, view_height: usize) -> (r: usize)
    ensures
        r == fitted_scroll(scroll, line_count, view_height),
{
    let furthest = if line_count > view_height {
        line_count - view_height
    } else {
        0
    };
    if scroll > furthest {
        furthest
    } else {
        scroll
    }
}

/// The nanoseconds until the next refresh of an interval of `interval_ms`
/// milliseconds, `since_refresh_ns` nanoseconds after the last one.
pub open spec fn refresh_left(interval_ms: u64, since_refresh_ns: u128) -> nat {
    let interval: int = interval_ms * 1_000_000;
    if interval > since_refresh_ns {
        (interval - since_refresh_ns) as nat
    } else {
        0
    }
}

/// What [`App::clear_notice_after`] does to the state after `elapsed`
/// nanoseconds: a notice whose time is up goes; otherwise nothing changes.
pub open spec fn notice_cleared(m: AppModel, elapsed: nat) -> (bool, AppModel) {
    if m.notice is Some && notice_remaining(elapsed) == 0 {
        (true, AppModel { notice: None, ..m })
    } else {
        (false, m)
    }
}

/// The wait for input: the time to the next refresh, or the time the
/// notice has left after `notice_age` nanoseconds if there is a notice and
/// that is shorter.
pub open spec fn poll_wait(m: AppModel, since_refresh_ns: u128, notice_age: nat) -> nat {
    if m.notice is Some {
        min_of(refresh_left(m.interval_ms, since_refresh_ns), notice_remaining(notice_age))
    } else {
        refresh_left(m.interval_ms, since_refresh_ns)
    }
}

/// The smaller of two numbers.
pub open spec fn min_of(a: nat, b: nat) -> nat {
    if a < b {
        a
    } else {
        b
    }
}

} // verus!

verus! {

// ---------------------------------------------------------------------------
// Laws of the view state
// ---------------------------------------------------------------------------

/// A key press.
pub open spec fn press(code: KeyCode) -> Input {
    Input::Key(Key { code, ctrl: false })
}

/// Nothing covers the table.
pub open spec fn uncovered(m: AppModel) -> bool {
    !overlay_open(m)
}

/// Control-C quits from any state, closing every prompt and panel.
pub proof fn lemma_ctrl_c_quits(m: AppModel, key: Key)
    requires
        is_ctrl_c(key),
    ensures
        step(m, Input::Key(key)).next.should_quit,
        step(m, Input::Key(key)).changed,
        !step(m, Input::Key(key)).next.filter_mode,
        !step(m, Input::Key(key)).next.show_help,
        step(m, Input::Key(key)).next.confirm is None,
        step(m, Input::Key(key)).next.handles is None,
{
}

/// While the open files and sockets panel is open (and the help is not),
/// every key but Esc, Enter, `o`, `q` and Control-C is swallowed: nothing
/// changes and nothing is asked for.
pub proof fn lemma_handles_panel_swallows_keys(m: AppModel, key: Key)
    requires
        m.handles is Some,
        !m.show_help,
        !is_ctrl_c(key),
        key.code != KeyCode::Esc,
        key.code != KeyCode::Enter,
        key.code != KeyCode::Char('o'),
        key.code != KeyCode::Char('q'),
    ensures
        step(m, Input::Key(key)) == stay(m),
{
}

/// While the help is open, every key but Esc, Enter, `?`, `q`, `j`, `k`
/// and Control-C is swallowed.
pub proof fn lemma_help_swallows_keys(m: AppModel, key: Key)
    requires
        m.show_help,
        !is_ctrl_c(key),
        key.code != KeyCode::Esc,
        key.code != KeyCode::Enter,
        key.code != KeyCode::Char('?'),
        key.code != KeyCode::Char('q'),
        key.code != KeyCode::Char('j'),
        key.code != KeyCode::Char('k'),
    ensures
        step(m, Input::Key(key)) == stay(m),
{
}

/// The mouse does nothing while anything covers the table.
pub proof fn lemma_covered_table_ignores_mouse(m: AppModel, input: Input)
    requires
        overlay_open(m),
        !(input is Key),
    ensures
        step(m, input) == stay(m),
{
}

/// The refresh interval stays within the allowed range, whatever the input.
pub proof fn lemma_interval_stays_in_range(m: AppModel, input: Input)
    requires
        crate::cli::MIN_INTERVAL_MS <= m.interval_ms <= crate::cli::MAX_INTERVAL_MS,
    ensures
        crate::cli::MIN_INTERVAL_MS <= step(m, input).next.interval_ms
            <= crate::cli::MAX_INTERVAL_MS,
{
    if let Input::Key(key) = input {
        if let KeyCode::Char(ch) = key.code {
            if !is_ctrl_c(key) && uncovered(m) && !is_view_char(ch, key.ctrl) && !is_sort_char(
                ch,
            ) && is_action_char(ch) {
                assert(crate::cli::MIN_INTERVAL_MS <= action_char_step(m, ch).next.interval_ms
                    <= crate::cli::MAX_INTERVAL_MS);
            } else if !is_ctrl_c(key) && uncovered(m) {
                lemma_char_keeps_interval(m, ch, key.ctrl);
            }
        }
    }
}

/// Only `+`, `=` and `-` change the refresh interval.
proof fn lemma_char_keeps_interval(m: AppModel, ch: char, ctrl: bool)
    requires
        !(!is_view_char(ch, ctrl) && !is_sort_char(ch) && is_action_char(ch)),
    ensures
        normal_char_step(m, ch, ctrl).next.interval_ms == m.interval_ms,
{
    if is_view_char(ch, ctrl) {
        assert(view_char_step(m, ch, ctrl).next.interval_ms == m.interval_ms);
    } else if is_sort_char(ch) {
        assert(sort_char_step(m, ch).next.interval_ms == m.interval_ms);
    } else if is_move_char(ch) {
        assert(move_char_step(m, ch).next.interval_ms == m.interval_ms);
    }
}

/// Within the allowed range, `-` undoes `+` and `+` undoes `-`, except where
/// the first stopped at a bound.
pub proof fn lemma_interval_steps_undo(ms: u64)
    ensures
        crate::cli::MIN_INTERVAL_MS <= ms && ms + 250 <= crate::cli::MAX_INTERVAL_MS
            ==> faster_interval(slower_interval(ms)) == ms,
        crate::cli::MIN_INTERVAL_MS + 250 <= ms && ms <= crate::cli::MAX_INTERVAL_MS
            ==> slower_interval(faster_interval(ms)) == ms,
{
}

/// With nothing covering the table, `+` (or `=`) makes the refresh interval
/// 250 ms slower, at most the largest interval, and `-` 250 ms faster, at
/// least the smallest; either way the notice names the new interval and
/// nothing else changes. Within the allowed range the interval stays there.
pub proof fn lemma_interval_keys(m: AppModel, ctrl: bool)
    requires
        uncovered(m),
    ensures
        ({
            let slower = slower_interval(m.interval_ms);
            let faster = faster_interval(m.interval_ms);
            &&& slower as int == if m.interval_ms + 250 < crate::cli::MAX_INTERVAL_MS {
                m.interval_ms + 250
            } else {
                crate::cli::MAX_INTERVAL_MS as int
            }
            &&& faster as int == if m.interval_ms - 250 > crate::cli::MIN_INTERVAL_MS {
                m.interval_ms - 250
            } else {
                crate::cli::MIN_INTERVAL_MS as int
            }
            &&& step(m, Input::Key(Key { code: KeyCode::Char('+'), ctrl })) == redraw(
                AppModel { interval_ms: slower, notice: Some(interval_notice(slower)), ..m },
            )
            &&& step(m, Input::Key(Key { code: KeyCode::Char('='), ctrl })) == redraw(
                AppModel { interval_ms: slower, notice: Some(interval_notice(slower)), ..m },
            )
            &&& step(m, Input::Key(Key { code: KeyCode::Char('-'), ctrl })) == redraw(
                AppModel { interval_ms: faster, notice: Some(interval_notice(faster)), ..m },
            )
            &&& (crate::cli::MIN_INTERVAL_MS <= m.interval_ms <= crate::cli::MAX_INTERVAL_MS ==> (
            crate::cli::MIN_INTERVAL_MS <= slower <= crate::cli::MAX_INTERVAL_MS
                && crate::cli::MIN_INTERVAL_MS <= faster <= crate::cli::MAX_INTERVAL_MS))
        }),
{
    assert(!is_ctrl_c(Key { code: KeyCode::Char('+'), ctrl }));
    assert(!is_ctrl_c(Key { code: KeyCode::Char('='), ctrl }));
    assert(!is_ctrl_c(Key { code: KeyCode::Char('-'), ctrl }));
}

/// The state after pressing character `ch` without Control.
pub open spec fn pressed(m: AppModel, ch: char) -> AppModel {
    step(m, Input::Key(Key { code: KeyCode::Char(ch), ctrl: false })).next
}

/// With nothing covering the table, each sort shortcut sorts by its own
/// key: `c` CPU, `m` memory, `e` energy impact, `d` disk writes, `D` disk
/// reads, `n` name, `p` PID, `T` run time, `u` user. Coming from another
/// key the order is descending for the measurements and ascending for name,
/// PID and user; pressing the shortcut of the current key reverses the
/// order.
pub proof fn lemma_sort_shortcuts(m: AppModel)
    requires
        uncovered(m),
    ensures
        m.sort_key != SortKey::Cpu ==> pressed(m, 'c').sort_key == SortKey::Cpu
            && pressed(m, 'c').sort_desc == true,
        m.sort_key == SortKey::Cpu ==> pressed(m, 'c').sort_key == SortKey::Cpu
            && pressed(m, 'c').sort_desc == !m.sort_desc,
        m.sort_key != SortKey::Memory ==> pressed(m, 'm').sort_key == SortKey::Memory
            && pressed(m, 'm').sort_desc == true,
        m.sort_key == SortKey::Memory ==> pressed(m, 'm').sort_key == SortKey::Memory
            && pressed(m, 'm').sort_desc == !m.sort_desc,
        m.sort_key != SortKey::Energy ==> pressed(m, 'e').sort_key == SortKey::Energy
            && pressed(m, 'e').sort_desc == true,
        m.sort_key == SortKey::Energy ==> pressed(m, 'e').sort_key == SortKey::Energy
            && pressed(m, 'e').sort_desc == !m.sort_desc,
        m.sort_key != SortKey::DiskWrite ==> pressed(m, 'd').sort_key == SortKey::DiskWrite
            && pressed(m, 'd').sort_desc == true,
        m.sort_key == SortKey::DiskWrite ==> pressed(m, 'd').sort_key == SortKey::DiskWrite
            && pressed(m, 'd').sort_desc == !m.sort_desc,
        m.sort_key != SortKey::DiskRead ==> pressed(m, 'D').sort_key == SortKey::DiskRead
            && pressed(m, 'D').sort_desc == true,
        m.sort_key == SortKey::DiskRead ==> pressed(m, 'D').sort_key == SortKey::DiskRead
            && pressed(m, 'D').sort_desc == !m.sort_desc,
        m.sort_key != SortKey::Name ==> pressed(m, 'n').sort_key == SortKey::Name
            && pressed(m, 'n').sort_desc == false,
        m.sort_key == SortKey::Name ==> pressed(m, 'n').sort_key == SortKey::Name
            && pressed(m, 'n').sort_desc == !m.sort_desc,
        m.sort_key != SortKey::Pid ==> pressed(m, 'p').sort_key == SortKey::Pid
            && pressed(m, 'p').sort_desc == false,
        m.sort_key == SortKey::Pid ==> pressed(m, 'p').sort_key == SortKey::Pid
            && pressed(m, 'p').sort_desc == !m.sort_desc,
        m.sort_key != SortKey::Runtime ==> pressed(m, 'T').sort_key == SortKey::Runtime
            && pressed(m, 'T').sort_desc == true,
        m.sort_key == SortKey::Runtime ==> pressed(m, 'T').sort_key == SortKey::Runtime
            && pressed(m, 'T').sort_desc == !m.sort_desc,
        m.sort_key != SortKey::User ==> pressed(m, 'u').sort_key == SortKey::User
            && pressed(m, 'u').sort_desc == false,
        m.sort_key == SortKey::User ==> pressed(m, 'u').sort_key == SortKey::User
            && pressed(m, 'u').sort_desc == !m.sort_desc,
{
}

/// Tab and Shift-Tab undo each other, and six presses of Tab come back to
/// the same view.
pub proof fn lemma_tab_keys_undo(tab: Tab)
    ensures
        previous_tab_of(next_tab_of(tab)) == tab,
        next_tab_of(previous_tab_of(tab)) == tab,
        next_tab_of(next_tab_of(next_tab_of(next_tab_of(next_tab_of(next_tab_of(tab))))))
            == tab,
{
}

/// Switching to another view sorts by that view's default key in that
/// key's default direction.
pub proof fn lemma_switching_view_sorts_by_default(m: AppModel, tab: Tab)
    requires
        m.tab != tab,
    ensures
        set_tab_step(m, tab).next.tab == tab,
        set_tab_step(m, tab).next.sort_key == tab_default_sort(tab),
        set_tab_step(m, tab).next.sort_desc == sort_default_desc(tab_default_sort(tab)),
        set_tab_step(m, tab).effect == Effect::Rebuild,
{
}

/// In the filter prompt, Backspace takes back the character just typed.
pub proof fn lemma_backspace_undoes_typing(m: AppModel, ch: char)
    requires
        m.filter_mode,
        !m.show_help,
        m.handles is None,
        m.confirm is None,
        ch != 'c' && ch != 'C',
    ensures
        step(step(m, press(KeyCode::Char(ch))).next, press(KeyCode::Backspace)).next == m,
{
    assert(m.filter.push(ch).drop_last() =~= m.filter);
}

/// Opening the help with `?` and closing it with Esc leaves the state as it
/// was.
pub proof fn lemma_help_opens_and_closes(m: AppModel)
    requires
        uncovered(m),
    ensures
        step(step(m, press(KeyCode::Char('?'))).next, press(KeyCode::Esc)).next == m,
{
}

/// `S` twice leaves the state as it was; so do `i` twice and `O` twice.
pub proof fn lemma_toggles_undo(m: AppModel)
    requires
        uncovered(m),
    ensures
        step(step(m, press(KeyCode::Char('S'))).next, press(KeyCode::Char('S'))).next == m,
        step(step(m, press(KeyCode::Char('i'))).next, press(KeyCode::Char('i'))).next == m,
        step(step(m, press(KeyCode::Char('O'))).next, press(KeyCode::Char('O'))).next == m,
{
}

/// A pending action is carried out on the selected process only on `y`;
/// `n` drops it with a notice and asks for nothing.
pub proof fn lemma_confirmation(m: AppModel, intent: ProcessIntent)
    requires
        !m.show_help,
        m.handles is None,
        m.confirm == Some(intent),
    ensures
        step(m, press(KeyCode::Char('y'))).next.confirm is None,
        step(m, press(KeyCode::Char('y'))).effect == match selected_pid_in(m) {
            Some(pid) => Effect::Apply(intent, pid),
            None => Effect::Nothing,
        },
        step(m, press(KeyCode::Char('n'))).next.confirm is None,
        step(m, press(KeyCode::Char('n'))).next.notice == Some(intent_cancel_label(intent)),
        step(m, press(KeyCode::Char('n'))).effect == Effect::Nothing,
{
}

/// Clicking the same sorting header again and again sorts by its key
/// descending, then ascending, then moves on to the next key.
pub proof fn lemma_header_clicks_cycle(m: AppModel, key: SortKey)
    requires
        m.sort_key != key,
    ensures
        header_sort_step(m, key).next.sort_key == key,
        header_sort_step(m, key).next.sort_desc,
        header_sort_step(header_sort_step(m, key).next, key).next.sort_key == key,
        !header_sort_step(header_sort_step(m, key).next, key).next.sort_desc,
        header_sort_step(header_sort_step(header_sort_step(m, key).next, key).next, key).next.sort_key
            == next_sort_key(key),
{
}

/// When the rows change, a process that is still shown stays selected.
pub proof fn lemma_selection_follows_process(
    visible: Seq<u32>,
    pid: u32,
    previous: Option<usize>,
    r: Option<usize>,
)
    requires
        reselection(visible, Some(pid), previous, r),
        visible.contains(pid),
    ensures
        r matches Some(n) && n < visible.len() && visible[n as int] == pid,
{
}

} // verus!

verus! {

/// Control-U clears the filter whether or not the filter prompt is open,
/// when nothing else covers the table.
pub proof fn lemma_ctrl_u_clears_filter(m: AppModel)
    requires
        !m.show_help,
        m.handles is None,
        m.confirm is None,
    ensures
        step(m, Input::Key(Key { code: KeyCode::Char('u'), ctrl: true })).next.filter.len() == 0,
        m.filter.len() != 0 ==> step(
            m,
            Input::Key(Key { code: KeyCode::Char('u'), ctrl: true }),
        ).effect == Effect::Refilter,
{
}

/// With nothing covering the table, `q` and Esc quit.
pub proof fn lemma_quit_keys(m: AppModel)
    requires
        uncovered(m),
    ensures
        step(m, press(KeyCode::Char('q'))).next.should_quit,
        step(m, press(KeyCode::Esc)).next.should_quit,
{
}

/// Showing the same rows again keeps the same row selected (process ids
/// are unique among the rows).
pub proof fn lemma_same_rows_keep_selection(visible: Seq<u32>, i: usize, r: Option<usize>)
    requires
        i < visible.len(),
        forall|a: int, b: int| 0 <= a < b < visible.len() ==> visible[a] != visible[b],
        reselection(visible, Some(visible[i as int]), Some(i), r),
    ensures
        r == Some(i),
{
    assert(visible.contains(visible[i as int]));
}

} // verus!
