use vstd::prelude::*;

verus! {

/// One step of simulated keyboard input.
#[derive(Debug, Clone, Copy, PartialEq, Eq, Structural)]
pub enum KeyStep {
    /// Press a virtual key down.
    Down(u16),
    /// Release a virtual key.
    Up(u16),
    /// Wait this many milliseconds.
    Pause(u64),
}

/// The pause after each key event of a key press, in milliseconds.
pub const DELAY: u64 = 3;

pub const KEY_TAB: u16 = 0x09;
pub const KEY_SHIFT: u16 = 0x10;
pub const KEY_ALT: u16 = 0x12;
pub const KEY_DELETE: u16 = 0x2E;

/// The number sent to a cell that has no purge value.
pub const MISSING_PURGE: u32 = 999;

/// Pressing one key: down, pause, up, pause.
pub open spec fn press(k: u16) -> Seq<KeyStep> {
    seq![KeyStep::Down(k), KeyStep::Pause(DELAY), KeyStep::Up(k), KeyStep::Pause(DELAY)]
}

/// Pressing keys one after the other.
pub open spec fn press_all(keys: Seq<u16>) -> Seq<KeyStep>
    decreases keys.len(),
{
    if keys.len() == 0 {
        Seq::empty()
    } else {
        press_all(keys.drop_last()) + press(keys.last())
    }
}

/// The decimal digits of a number, most significant first, as `{}` writes it.
pub open spec fn digits(n: nat) -> Seq<u8>
    decreases n,
{
    if n < 10 {
        seq![n as u8]
    } else {
        digits(n / 10).push((n % 10) as u8)
    }
}

/// The number that decimal digits spell.
pub open spec fn digits_value(ds: Seq<u8>) -> nat
    decreases ds.len(),
{
    if ds.len() == 0 {
        0
    } else {
        digits_value(ds.drop_last()) * 10 + ds.last() as nat
    }
}

/// The virtual keys of digits: the key of a digit is its character code.
pub open spec fn digit_keys(ds: Seq<u8>) -> Seq<u16> {
    ds.map_values(|d: u8| (d + 0x30) as u16)
}

/// The keys that enter a number into a focused cell: three deletes, the digits, and a
/// tab to the next cell when `next`.
pub open spec fn number_keys(n: u32, next: bool) -> Seq<u16> {
    seq![KEY_DELETE, KEY_DELETE, KEY_DELETE] + digit_keys(digits(n as nat)) + (if next {
        seq![KEY_TAB]
    } else {
        Seq::empty()
    })
}

proof fn lemma_press_all_append(a: Seq<u16>, b: Seq<u16>)
    ensures
        press_all(a + b) == press_all(a) + press_all(b),
    decreases b.len(),
{
    if b.len() == 0 {
        assert(a + b =~= a);
        assert(press_all(b) =~= Seq::<KeyStep>::empty());
        assert(press_all(a) + press_all(b) =~= press_all(a));
    } else {
        lemma_press_all_append(a, b.drop_last());
        assert((a + b).drop_last() =~= a + b.drop_last());
        assert((a + b).last() == b.last());
        assert(press_all(a + b) =~= press_all(a) + press_all(b));
    }
}

fn push_press(steps: &mut Vec<KeyStep>, k: u16)
    ensures
        final(steps)@ == old(steps)@ + press(k),
{
    steps.push(KeyStep::Down(k));
    steps.push(KeyStep::Pause(DELAY));
    steps.push(KeyStep::Up(k));
    steps.push(KeyStep::Pause(DELAY));
    assert(final(steps)@ =~= old(steps)@ + press(k));
}

fn push_digit_presses(steps: &mut Vec<KeyStep>, n: u32)
    ensures
        final(steps)@ == old(steps)@ + press_all(digit_keys(digits(n as nat))),
    decreases n,
{
    let ghost before = steps@;
    if n >= 10 {
        push_digit_presses(steps, n / 10);
    } else {
        assert(press_all(Seq::<u16>::empty()) =~= Seq::<KeyStep>::empty());
        assert(steps@ =~= before + press_all(Seq::<u16>::empty()));
    }
    let d = (n % 10) as u16;
    push_press(steps, d + 0x30);
    proof {
        let ds = digits(n as nat);
        let prefix: Seq<u8> = if n >= 10 { digits((n / 10) as nat) } else { Seq::empty() };
        assert(ds =~= prefix.push((n % 10) as u8));
        assert(digit_keys(ds) =~= digit_keys(prefix).push((d + 0x30) as u16));
        assert(digit_keys(ds).drop_last() =~= digit_keys(prefix));
        assert(press_all(digit_keys(ds)) =~= press_all(digit_keys(prefix)) + press(
            (d + 0x30) as u16,
        ));
        if n < 10 {
            assert(digit_keys(prefix) =~= Seq::<u16>::empty());
        }
    }
}

/// The key steps that type a number into the focused cell: three deletes, its decimal
/// digits, and a tab when `next`.
pub fn send_number(n: u32, next: bool) -> (steps: Vec<KeyStep>)
    ensures
        steps@ == press_all(number_keys(n, next)),
{
    let mut steps: Vec<KeyStep> = Vec::new();
    push_press(&mut steps, KEY_DELETE);
    push_press(&mut steps, KEY_DELETE);
    push_press(&mut steps, KEY_DELETE);
    let ghost dels = seq![KEY_DELETE, KEY_DELETE, KEY_DELETE];
    proof {
        reveal_with_fuel(press_all, 4);
        assert(steps@ =~= press_all(dels));
    }
    push_digit_presses(&mut steps, n);
    proof {
        lemma_press_all_append(dels, digit_keys(digits(n as nat)));
    }
    let ghost tail: Seq<u16> = if next { seq![KEY_TAB] } else { Seq::empty() };
    if next {
        push_press(&mut steps, KEY_TAB);
    }
    proof {
        reveal_with_fuel(press_all, 2);
        assert(press_all(Seq::<u16>::empty()) =~= Seq::<KeyStep>::empty());
        assert(tail.len() == 1 ==> tail.drop_last() =~= Seq::<u16>::empty());
        assert(steps@ =~= press_all(dels + digit_keys(digits(n as nat))) + press_all(tail));
        lemma_press_all_append(dels + digit_keys(digits(n as nat)), tail);
        assert(number_keys(n, next) =~= dels + digit_keys(digits(n as nat)) + tail);
    }
    steps
}

/// The digits of a number spell it, each below ten, with no leading zero unless the
/// number is zero: what `send_number` types is the number's decimal text.
pub proof fn lemma_digits_spell(n: nat)
    ensures
        digits_value(digits(n)) == n,
        forall|i: int| 0 <= i < digits(n).len() ==> #[trigger] digits(n)[i] < 10,
        digits(n).len() >= 1,
        n > 0 ==> digits(n)[0] != 0,
    decreases n,
{
    if n >= 10 {
        lemma_digits_spell(n / 10);
        let ds = digits(n);
        assert(ds.drop_last() =~= digits(n / 10));
        assert(ds[0] == digits(n / 10)[0]);
        assert(ds.last() as nat == n % 10);
        assert((n / 10) * 10 + n % 10 == n) by (nonlinear_arith);
        assert(digits_value(ds) == digits_value(digits(n / 10)) * 10 + n % 10);
    } else {
        assert(digits(n).drop_last() =~= Seq::<u8>::empty());
        assert(digits_value(digits(n)) == digits_value(Seq::<u8>::empty()) * 10 + n);
    }
}

/// `count` repetitions of a run of steps.
pub open spec fn repeat(steps: Seq<KeyStep>, count: nat) -> Seq<KeyStep>
    decreases count,
{
    if count == 0 {
        Seq::empty()
    } else {
        repeat(steps, (count - 1) as nat) + steps
    }
}

/// One tab of a held shift: tab down, one millisecond, tab up, one millisecond.
pub open spec fn shift_tab_step() -> Seq<KeyStep> {
    seq![KeyStep::Down(KEY_TAB), KeyStep::Pause(1), KeyStep::Up(KEY_TAB), KeyStep::Pause(1)]
}

/// The steps of `n` tabs backwards: shift held down around `n` quick tabs.
pub fn shift_tab(n: usize) -> (steps: Vec<KeyStep>)
    ensures
        steps@ == seq![KeyStep::Down(KEY_SHIFT)] + repeat(shift_tab_step(), n as nat) + seq![
            KeyStep::Up(KEY_SHIFT),
        ],
{
    let mut steps: Vec<KeyStep> = Vec::new();
    steps.push(KeyStep::Down(KEY_SHIFT));
    for i in 0..n
        invariant
            steps@ == seq![KeyStep::Down(KEY_SHIFT)] + repeat(shift_tab_step(), i as nat),
    {
        steps.push(KeyStep::Down(KEY_TAB));
        steps.push(KeyStep::Pause(1));
        steps.push(KeyStep::Up(KEY_TAB));
        steps.push(KeyStep::Pause(1));
        assert(steps@ =~= seq![KeyStep::Down(KEY_SHIFT)] + repeat(shift_tab_step(), (i + 1) as nat));
    }
    steps.push(KeyStep::Up(KEY_SHIFT));
    steps
}

/// The steps of one tab: a key press and a pause.
pub fn tab() -> (steps: Vec<KeyStep>)
    ensures
        steps@ == press(KEY_TAB) + seq![KeyStep::Pause(DELAY)],
{
    let mut steps: Vec<KeyStep> = Vec::new();
    push_press(&mut steps, KEY_TAB);
    steps.push(KeyStep::Pause(DELAY));
    assert(steps@ =~= press(KEY_TAB) + seq![KeyStep::Pause(DELAY)]);
    steps
}

/// The steps of `n` tab presses.
pub fn tabs(n: usize) -> (steps: Vec<KeyStep>)
    ensures
        steps@ == repeat(press(KEY_TAB), n as nat),
{
    let mut steps: Vec<KeyStep> = Vec::new();
    for i in 0..n
        invariant
            steps@ == repeat(press(KEY_TAB), i as nat),
    {
        push_press(&mut steps, KEY_TAB);
    }
    steps
}

/// The steps of alt-tab: alt down, tab down, a pause, tab up, alt up.
pub fn alt_tab() -> (steps: Vec<KeyStep>)
    ensures
        steps@ == seq![
            KeyStep::Down(KEY_ALT),
            KeyStep::Down(KEY_TAB),
            KeyStep::Pause(DELAY),
            KeyStep::Up(KEY_TAB),
            KeyStep::Up(KEY_ALT),
        ],
{
    let mut steps: Vec<KeyStep> = Vec::new();
    steps.push(KeyStep::Down(KEY_ALT));
    steps.push(KeyStep::Down(KEY_TAB));
    steps.push(KeyStep::Pause(DELAY));
    steps.push(KeyStep::Up(KEY_TAB));
    steps.push(KeyStep::Up(KEY_ALT));
    assert(steps@ =~= seq![
        KeyStep::Down(KEY_ALT),
        KeyStep::Down(KEY_TAB),
        KeyStep::Pause(DELAY),
        KeyStep::Up(KEY_TAB),
        KeyStep::Up(KEY_ALT),
    ]);
    steps
}

/// The tabs that move from the purge window's OK button to its first cell: five more
/// than the number of filaments.
pub fn focus_first_input_tabs(num_filaments: usize) -> (steps: Vec<KeyStep>)
    requires
        num_filaments + 5 <= usize::MAX,
    ensures
        steps@ == repeat(press(KEY_TAB), (num_filaments + 5) as nat),
{
    tabs(num_filaments + 5)
}

} // verus!
