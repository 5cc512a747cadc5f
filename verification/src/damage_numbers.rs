//! Floating damage numbers: damage kinds, their icons, and the text shown.

use vstd::prelude::*;

verus! {

/// The kind of a hit, which picks the icon shown beside its number.
#[derive(Clone, Copy, Debug, PartialEq, Eq, Structural)]
pub enum DamageType {
    Physical,
    Fire,
    Lightning,
    Ice,
    Earth,
    Heal,
    Bleed,
}

/// The icons a damage number can carry.
#[derive(Clone, Copy, Debug, PartialEq, Eq, Structural)]
pub enum DamageIcon {
    Fire,
    Lightning,
    Ice,
    Heart,
    Blood,
}

impl DamageType {
    /// The icon drawn beside a number of this kind, if any.
    pub open spec fn spec_icon(self) -> Option<DamageIcon> {
        match self {
            DamageType::Fire => Some(DamageIcon::Fire),
            DamageType::Lightning => Some(DamageIcon::Lightning),
            DamageType::Ice => Some(DamageIcon::Ice),
            DamageType::Physical | DamageType::Earth => None,
            DamageType::Heal => Some(DamageIcon::Heart),
            DamageType::Bleed => Some(DamageIcon::Blood),
        }
    }

    /// The icon drawn beside a number of this kind: physical and earth damage
    /// carry none, healing carries a heart, bleeding a drop of blood, and the
    /// elements their own sign.
    pub fn icon(self) -> (i: Option<DamageIcon>)
        ensures
            i == self.spec_icon(),
    {
        match self {
            DamageType::Fire => Some(DamageIcon::Fire),
            DamageType::Lightning => Some(DamageIcon::Lightning),
            DamageType::Ice => Some(DamageIcon::Ice),
            DamageType::Physical | DamageType::Earth => None,
            DamageType::Heal => Some(DamageIcon::Heart),
            DamageType::Bleed => Some(DamageIcon::Blood),
        }
    }
}

/// How a damage number is drawn.
#[derive(Clone, Copy, Debug, PartialEq, Eq, Structural)]
pub enum NumberStyle {
    /// Healing, in green.
    Heal,
    /// A critical hit, in yellow and large.
    Crit,
    /// Any other hit, in white.
    Normal,
}

/// The style of a damage number: healing wins over a critical hit.
pub fn number_style(damage_type: DamageType, crit: bool) -> (s: NumberStyle)
    ensures
        damage_type == DamageType::Heal ==> s == NumberStyle::Heal,
        damage_type != DamageType::Heal && crit ==> s == NumberStyle::Crit,
        damage_type != DamageType::Heal && !crit ==> s == NumberStyle::Normal,
{
    if damage_type == DamageType::Heal {
        NumberStyle::Heal
    } else if crit {
        NumberStyle::Crit
    } else {
        NumberStyle::Normal
    }
}


/// The character of a decimal digit.
pub open spec fn digit_char(d: nat) -> char {
    if d == 0 {
        '0'
    } else if d == 1 {
        '1'
    } else if d == 2 {
        '2'
    } else if d == 3 {
        '3'
    } else if d == 4 {
        '4'
    } else if d == 5 {
        '5'
    } else if d == 6 {
        '6'
    } else if d == 7 {
        '7'
    } else if d == 8 {
        '8'
    } else {
        '9'
    }
}

/// The decimal digits of `n`, most significant first, without leading zeros.
pub open spec fn decimal(n: nat) -> Seq<char>
    decreases n,
{
    if n < 10 {
        seq![digit_char(n)]
    } else {
        decimal(n / 10).push(digit_char(n % 10))
    }
}

/// The text shown for a hit of `amount`: a minus sign when negative, then the
/// magnitude in whole millions with `M` from a million on, in whole thousands
/// with `k` from a thousand on, and in full below.
pub open spec fn damage_text(amount: int) -> Seq<char> {
    let sign = if amount < 0 {
        seq!['-']
    } else {
        Seq::<char>::empty()
    };
    let n = if amount < 0 {
        -amount
    } else {
        amount
    };
    if n >= 1_000_000 {
        sign + decimal((n / 1_000_000) as nat) + seq!['M']
    } else if n >= 1_000 {
        sign + decimal((n / 1_000) as nat) + seq!['k']
    } else {
        sign + decimal(n as nat)
    }
}

/// The value of a decimal digit character.
pub open spec fn digit_value(c: char) -> nat {
    if c == '1' {
        1
    } else if c == '2' {
        2
    } else if c == '3' {
        3
    } else if c == '4' {
        4
    } else if c == '5' {
        5
    } else if c == '6' {
        6
    } else if c == '7' {
        7
    } else if c == '8' {
        8
    } else if c == '9' {
        9
    } else {
        0
    }
}

/// The number a string of decimal digits reads as.
pub open spec fn read_decimal(s: Seq<char>) -> nat
    decreases s.len(),
{
    if s.len() == 0 {
        0
    } else {
        read_decimal(s.drop_last()) * 10 + digit_value(s.last())
    }
}

/// The digits of `n` read back as `n`, and there is no leading zero.
pub proof fn lemma_decimal_reads_back(n: nat)
    ensures
        read_decimal(decimal(n)) == n,
        decimal(n).len() >= 1,
        n >= 10 ==> decimal(n).len() > 1,
        decimal(n).len() > 1 ==> decimal(n)[0] != '0',
    decreases n,
{
    if n >= 10 {
        lemma_decimal_reads_back(n / 10);
        let d = decimal(n);
        assert(d == decimal(n / 10).push(digit_char(n % 10)));
        assert(d.drop_last() =~= decimal(n / 10));
        assert(d.last() == digit_char(n % 10));
        assert(digit_value(digit_char(n % 10)) == n % 10);
        assert(read_decimal(d) == read_decimal(decimal(n / 10)) * 10 + n % 10);
        assert((n / 10) * 10 + n % 10 == n);
        assert(d[0] == decimal(n / 10)[0]);
        if n / 10 < 10 {
            assert(decimal(n / 10) == seq![digit_char(n / 10)]);
            assert(n / 10 >= 1);
        }
    } else {
        let d = decimal(n);
        assert(d == seq![digit_char(n)]);
        assert(d.drop_last() =~= Seq::<char>::empty());
        assert(read_decimal(d.drop_last()) == 0);
    }
}

/// What a damage number shows reads back as the magnitude of the hit, in
/// full below a thousand, in whole thousands below a million, in whole
/// millions above; the suffix and sign tell which.
pub proof fn lemma_damage_text_reads_back(amount: int)
    requires
        -2147483648 <= amount <= 2147483647,
    ensures
        ({
            let n = if amount < 0 {
                -amount
            } else {
                amount
            };
            let sign_len: int = if amount < 0 {
                1
            } else {
                0
            };
            let t = damage_text(amount);
            &&& amount < 0 <==> t[0] == '-'
            &&& n < 1_000 ==> read_decimal(t.skip(sign_len)) == n
            &&& 1_000 <= n < 1_000_000 ==> t.last() == 'k' && read_decimal(
                t.subrange(sign_len, t.len() - 1),
            ) == n / 1_000
            &&& n >= 1_000_000 ==> t.last() == 'M' && read_decimal(
                t.subrange(sign_len, t.len() - 1),
            ) == n / 1_000_000
        }),
{
    let n = if amount < 0 {
        -amount
    } else {
        amount
    };
    let sign = if amount < 0 {
        seq!['-']
    } else {
        Seq::<char>::empty()
    };
    let sign_len: int = sign.len() as int;
    let t = damage_text(amount);
    if n >= 1_000_000 {
        let d = decimal((n / 1_000_000) as nat);
        lemma_decimal_reads_back((n / 1_000_000) as nat);
        lemma_decimal_not_minus((n / 1_000_000) as nat);
        assert(t =~= sign + d + seq!['M']);
        assert(t.subrange(sign_len, t.len() - 1) =~= d);
    } else if n >= 1_000 {
        let d = decimal((n / 1_000) as nat);
        lemma_decimal_reads_back((n / 1_000) as nat);
        lemma_decimal_not_minus((n / 1_000) as nat);
        assert(t =~= sign + d + seq!['k']);
        assert(t.subrange(sign_len, t.len() - 1) =~= d);
    } else {
        let d = decimal(n as nat);
        lemma_decimal_reads_back(n as nat);
        lemma_decimal_not_minus(n as nat);
        assert(t =~= sign + d);
        assert(t.skip(sign_len) =~= d);
    }
}

proof fn lemma_decimal_not_minus(n: nat)
    ensures
        decimal(n).len() >= 1,
        decimal(n)[0] != '-',
    decreases n,
{
    if n >= 10 {
        lemma_decimal_not_minus(n / 10);
        assert(decimal(n)[0] == decimal(n / 10)[0]);
    }
}

fn digit_str(d: u32) -> (s: &'static str)
    requires
        d < 10,
    ensures
        s@ == seq![digit_char(d as nat)],
{
    proof {
        reveal_strlit("0");
        reveal_strlit("1");
        reveal_strlit("2");
        reveal_strlit("3");
        reveal_strlit("4");
        reveal_strlit("5");
        reveal_strlit("6");
        reveal_strlit("7");
        reveal_strlit("8");
        reveal_strlit("9");
    }
    match d {
        0 => "0",
        1 => "1",
        2 => "2",
        3 => "3",
        4 => "4",
        5 => "5",
        6 => "6",
        7 => "7",
        8 => "8",
        _ => "9",
    }
}

/// Appends the decimal digits of `n` to `text`.
pub fn push_decimal(text: &mut String, n: u32)
    ensures
        final(text)@ == old(text)@ + decimal(n as nat),
    decreases n,
{
    if n >= 10 {
        push_decimal(text, n / 10);
    }
    text.append(digit_str(n % 10));
    proof {
        if n >= 10 {
            assert(old(text)@ + decimal((n / 10) as nat) + seq![digit_char((n % 10) as nat)]
                =~= old(text)@ + decimal(n as nat));
        } else {
            assert(old(text)@ + seq![digit_char((n % 10) as nat)] =~= old(text)@ + decimal(
                n as nat,
            ));
        }
    }
}

/// Formats a hit amount for display, shortening large amounts to thousands
/// (`k`) or millions (`M`), truncated towards zero.
pub fn format_damage_number(amount: i32) -> (text: String)
    ensures
        text@ == damage_text(amount as int),
{
    let mut text = String::new();
    proof {
        reveal_strlit("-");
        reveal_strlit("M");
        reveal_strlit("k");
    }
    if amount < 0 {
        text.append("-");
    }
    let n: u32 = if amount < 0 {
        if amount == i32::MIN {
            2_147_483_648u32
        } else {
            (-amount) as u32
        }
    } else {
        amount as u32
    };
    if n >= 1_000_000 {
        push_decimal(&mut text, n / 1_000_000);
        text.append("M");
    } else if n >= 1_000 {
        push_decimal(&mut text, n / 1_000);
        text.append("k");
    } else {
        push_decimal(&mut text, n);
    }
    text
}

} // verus!
