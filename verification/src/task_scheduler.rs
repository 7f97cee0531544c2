use vstd::prelude::*;

verus! {

/// The name under which the carousel's task is registered with the task scheduler.
pub const TASK_NAME: &'static str = "Lock Screen Carousel";

/// The task scheduler folder that holds the task.
pub const TASK_FOLDER: &'static str = "\\";

/// The id given to the trigger that fires when the session is unlocked.
pub const UNLOCK_TRIGGER_ID: &'static str = "Unlock trigger";

/// The id given to the trigger that fires at a fixed interval.
pub const TIME_TRIGGER_ID: &'static str = "Time trigger";

/// The character of a decimal digit.
pub open spec fn digit_char(d: nat) -> char
    recommends
        d < 10,
{
    seq!['0', '1', '2', '3', '4', '5', '6', '7', '8', '9'][d as int]
}

/// The decimal notation of a natural number, without leading zeros.
pub open spec fn decimal(n: nat) -> Seq<char>
    decreases n,
{
    if n < 10 {
        seq![digit_char(n)]
    } else {
        decimal(n / 10).push(digit_char(n % 10))
    }
}

/// An ISO 8601 duration of `minutes` minutes, as the task scheduler reads a
/// repetition interval: `PT`, the number of minutes, `M`.
pub open spec fn minutes_duration(minutes: nat) -> Seq<char> {
    seq!['P', 'T'] + decimal(minutes) + seq!['M']
}

/// The number that a string of decimal digits stands for.
pub open spec fn digits_value(digits: Seq<char>) -> int
    decreases digits.len(),
{
    if digits.len() == 0 {
        0
    } else {
        digits_value(digits.drop_last()) * 10 + (digits.last() as int - '0' as int)
    }
}

proof fn lemma_digit_char(d: nat)
    requires
        d < 10,
    ensures
        digit_char(d) as int == '0' as int + d,
{
    let digits = seq!['0', '1', '2', '3', '4', '5', '6', '7', '8', '9'];
    assert(digits[0] == '0' && digits[1] == '1' && digits[2] == '2' && digits[3] == '3' && digits[4]
        == '4' && digits[5] == '5' && digits[6] == '6' && digits[7] == '7' && digits[8] == '8'
        && digits[9] == '9');
}

/// The decimal notation of `n` is made of the digits `0` to `9`, starts with `0`
/// only when it is the notation of 0, and reads back as `n`.
pub proof fn lemma_decimal_reads_back(n: nat)
    ensures
        decimal(n).len() > 0,
        forall|j: int|
            0 <= j < decimal(n).len() ==> '0' as int <= #[trigger] decimal(n)[j] as int <= '9' as int,
        decimal(n)[0] == '0' ==> n == 0,
        digits_value(decimal(n)) == n,
    decreases n,
{
    if n < 10 {
        lemma_digit_char(n);
        assert(decimal(n).drop_last() =~= Seq::<char>::empty());
        assert(digits_value(Seq::<char>::empty()) == 0);
        assert(decimal(n).last() == digit_char(n));
    } else {
        let m = n / 10;
        let d = n % 10;
        lemma_decimal_reads_back(m);
        lemma_digit_char(d);
        let s = decimal(m).push(digit_char(d));
        assert(decimal(n) == s);
        assert(s.drop_last() =~= decimal(m));
        assert(s[0] == decimal(m)[0]);
        assert forall|j: int| 0 <= j < s.len() implies '0' as int <= #[trigger] s[j] as int <= '9' as int by {
            if j < decimal(m).len() {
                assert(s[j] == decimal(m)[j]);
            }
        }
        vstd::arithmetic::div_mod::lemma_fundamental_div_mod(n as int, 10);
        assert(s.last() == digit_char(d));
        assert(digits_value(s) == digits_value(decimal(m)) * 10 + d);
    }
}

fn digit_str(d: u32) -> (s: &'static str)
    requires
        d < 10,
    ensures
        s@ == seq![digit_char(d as nat)],
{
    proof {
        reveal_strlit("0");
        reveal_strlit("1");
        reveal_strlit("2");
        reveal_strlit("3");
        reveal_strlit("4");
        reveal_strlit("5");
        reveal_strlit("6");
        reveal_strlit("7");
        reveal_strlit("8");
        reveal_strlit("9");
    }
    match d {
        0 => "0",
        1 => "1",
        2 => "2",
        3 => "3",
        4 => "4",
        5 => "5",
        6 => "6",
        7 => "7",
        8 => "8",
        _ => "9",
    }
}

fn push_decimal(text: &mut String, n: u32)
    ensures
        final(text)@ == old(text)@ + decimal(n as nat),
    decreases n,
{
    if n >= 10 {
        push_decimal(text, n / 10);
    }
    text.append(digit_str(n % 10));
    proof {
        if n >= 10 {
            assert(decimal(n as nat) == decimal((n / 10) as nat).push(digit_char((n % 10) as nat)));
        }
    }
}

/// The repetition interval of a task that runs every `minutes` minutes.
pub fn repetition_interval(minutes: u32) -> (interval: String)
    ensures
        interval@ == minutes_duration(minutes as nat),
        interval@.len() >= 4,
        interval@[0] == 'P' && interval@[1] == 'T' && interval@.last() == 'M',
        forall|j: int|
            2 <= j < interval@.len() - 1 ==> '0' as int <= #[trigger] interval@[j] as int <= '9' as int,
        digits_value(interval@.subrange(2, interval@.len() - 1)) == minutes,
{
    proof {
        reveal_strlit("PT");
        reveal_strlit("M");
    }
    let mut interval = String::from_str("PT");
    push_decimal(&mut interval, minutes);
    interval.append("M");
    proof {
        let digits = decimal(minutes as nat);
        lemma_decimal_reads_back(minutes as nat);
        assert(interval@.subrange(2, interval@.len() - 1) =~= digits);
        assert forall|j: int| 2 <= j < interval@.len() - 1 implies '0' as int <= #[trigger] interval@[j] as int
            <= '9' as int by {
            assert(interval@[j] == digits[j - 2]);
        }
    }
    interval
}

/// The trigger that the carousel's task is registered with.
pub enum TaskTrigger {
    /// Fires when the user unlocks the session.
    SessionUnlock,
    /// Fires from now on, repeating at `interval`, an ISO 8601 duration.
    Repeating { interval: String },
}

/// What the scheduler is asked for once any earlier task has been removed:
/// nothing for `Never`, an unlock trigger for `Lock`, and a trigger that repeats
/// every `interval` minutes for `Interval`.
pub fn plan_task_trigger(trigger: crate::CarouselTrigger, interval: u32) -> (planned: Option<TaskTrigger>)
    ensures
        trigger == crate::CarouselTrigger::Never <==> planned is None,
        trigger == crate::CarouselTrigger::Lock <==> planned matches Some(TaskTrigger::SessionUnlock),
        trigger == crate::CarouselTrigger::Interval ==> (planned matches Some(
            TaskTrigger::Repeating { interval: text },
        ) && text@ == minutes_duration(interval as nat)),
{
    match trigger {
        crate::CarouselTrigger::Never => None,
        crate::CarouselTrigger::Lock => Some(TaskTrigger::SessionUnlock),
        crate::CarouselTrigger::Interval => Some(TaskTrigger::Repeating { interval: repetition_interval(interval) }),
    }
}

} // verus!
