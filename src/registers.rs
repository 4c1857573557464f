use vstd::prelude::*;
use vstd::string::*;

verus! {

/// The numeric base in which a register value is shown.
#[derive(Clone, Copy, Debug, PartialEq, Eq, Structural)]
pub enum DisplayFormat {
    Hex,
    Binary,
    Decimal,
    Octal,
}

impl Default for DisplayFormat {
    fn default() -> (r: Self)
        ensures
            r == DisplayFormat::Hex,
    {
        DisplayFormat::Hex
    }
}

/// The lower-case digits of every base up to sixteen, in order.
pub open spec fn digit_chars() -> Seq<char> {
    seq!['0', '1', '2', '3', '4', '5', '6', '7', '8', '9', 'a', 'b', 'c', 'd', 'e', 'f']
}

/// The digits of `v` in base `radix`, most significant first, without leading zeros.
pub open spec fn digit_text(v: nat, radix: nat) -> Seq<char>
    recommends
        2 <= radix <= 16,
    decreases v,
    via digit_text_decreases
{
    if radix < 2 || v < radix {
        seq![digit_chars()[v as int]]
    } else {
        digit_text(v / radix, radix).push(digit_chars()[(v % radix) as int])
    }
}

#[via_fn]
proof fn digit_text_decreases(v: nat, radix: nat) {
    if !(radix < 2 || v < radix) {
        assert(v / radix < v) by (nonlinear_arith)
            requires
                radix >= 2,
                v >= radix,
        ;
    }
}

/// `s` with zeros put in front until it is at least `width` characters long.
pub open spec fn zero_padded(s: Seq<char>, width: nat) -> Seq<char> {
    if s.len() >= width {
        s
    } else {
        Seq::new((width - s.len()) as nat, |i: int| '0') + s
    }
}

impl DisplayFormat {
    pub open spec fn radix(self) -> nat {
        match self {
            DisplayFormat::Hex => 16,
            DisplayFormat::Binary => 2,
            DisplayFormat::Decimal => 10,
            DisplayFormat::Octal => 8,
        }
    }

    /// The number of digits that a register of `bit_width` bits is shown with.
    pub open spec fn required_width(self, bit_width: nat) -> nat {
        match self {
            DisplayFormat::Hex => (bit_width + 3) / 4,
            DisplayFormat::Binary => bit_width,
            DisplayFormat::Decimal => (bit_width + 2) / 3,
            DisplayFormat::Octal => (bit_width + 2) / 3,
        }
    }

    /// `value` in this base, left-padded with zeros to at least `width` characters.
    pub open spec fn formatted(self, value: nat, width: nat) -> Seq<char> {
        zero_padded(digit_text(value, self.radix()), width)
    }

    /// Returns the number of characters needed to display the max value of a
    /// register of the given width.
    pub fn get_required_display_width(&self, bit_width: u8) -> (r: u8)
        ensures
            r as nat == self.required_width(bit_width as nat),
    {
        match self {
            DisplayFormat::Hex => bit_width / 4 + if bit_width % 4 == 0 { 0 } else { 1 },
            DisplayFormat::Binary => bit_width,
            DisplayFormat::Decimal => bit_width / 3 + if bit_width % 3 == 0 { 0 } else { 1 },
            DisplayFormat::Octal => bit_width / 3 + if bit_width % 3 == 0 { 0 } else { 1 },
        }
    }

    /// The prefix that marks the base in a register line.
    pub fn prefix(&self) -> (r: &'static str)
        ensures
            r@ == self.spec_prefix(),
    {
        proof {
            reveal_strlit("0x");
            reveal_strlit("0b");
            reveal_strlit("");
            reveal_strlit("0o");
        }
        match self {
            DisplayFormat::Hex => "0x",
            DisplayFormat::Binary => "0b",
            DisplayFormat::Decimal => "",
            DisplayFormat::Octal => "0o",
        }
    }

    pub open spec fn spec_prefix(self) -> Seq<char> {
        match self {
            DisplayFormat::Hex => seq!['0', 'x'],
            DisplayFormat::Binary => seq!['0', 'b'],
            DisplayFormat::Decimal => Seq::empty(),
            DisplayFormat::Octal => seq!['0', 'o'],
        }
    }

    fn radix_exec(&self) -> (r: u64)
        ensures
            r as nat == self.radix(),
    {
        match self {
            DisplayFormat::Hex => 16,
            DisplayFormat::Binary => 2,
            DisplayFormat::Decimal => 10,
            DisplayFormat::Octal => 8,
        }
    }

    /// Renders `value` in this base, padded with leading zeros to at least
    /// `display_precision` characters; a longer number is never cut.
    pub fn format_value(&self, value: u64, display_precision: usize) -> (r: String)
        ensures
            r@ == self.formatted(value as nat, display_precision as nat),
    {
        let radix = self.radix_exec();
        // Digit values, least significant first; `tail` holds their characters in reading order.
        let mut ds: Vec<u64> = Vec::new();
        let ghost mut tail: Seq<char> = Seq::empty();
        let mut v: u64 = value;
        while v >= radix
            invariant
                2 <= radix <= 16,
                radix as nat == self.radix(),
                ds@.len() == tail.len(),
                forall|i: int| 0 <= i < ds@.len() ==> ds@[i] < radix,
                forall|i: int|
                    0 <= i < ds@.len() ==> tail[i] == digit_chars()[ds@[ds@.len() - 1 - i] as int],
                digit_text(value as nat, radix as nat) == digit_text(v as nat, radix as nat) + tail,
            decreases v,
        {
            let d = v % radix;
            proof {
                let c = digit_chars()[d as int];
                assert(digit_text(v as nat, radix as nat) == digit_text((v / radix) as nat, radix as nat).push(c));
                assert(digit_text(v as nat, radix as nat) + tail =~= digit_text((v / radix) as nat, radix as nat) + (seq![c] + tail));
                tail = seq![c] + tail;
            }
            ds.push(d);
            v = v / radix;
        }
        proof {
            assert(digit_text(v as nat, radix as nat) == seq![digit_chars()[v as int]]);
            tail = seq![digit_chars()[v as int]] + tail;
            assert(digit_text(value as nat, radix as nat) =~= tail);
        }
        ds.push(v);
        let n = ds.len();
        let mut s = String::new();
        if display_precision > n {
            let zeros = display_precision - n;
            let mut k: usize = 0;
            while k < zeros
                invariant
                    k <= zeros,
                    s@ =~= Seq::new(k as nat, |i: int| '0'),
                decreases zeros - k,
            {
                proof { reveal_strlit("0"); }
                s.append("0");
                k = k + 1;
            }
        }
        let ghost pad = s@;
        let mut j: usize = n;
        while j > 0
            invariant
                j <= n,
                n == ds@.len(),
                n == tail.len(),
                forall|i: int| 0 <= i < n ==> ds@[i] < 16,
                forall|i: int| 0 <= i < n ==> tail[i] == digit_chars()[ds@[n - 1 - i] as int],
                s@ =~= pad + tail.take(n - j),
            decreases j,
        {
            j = j - 1;
            let piece = digit_str(ds[j]);
            proof {
                assert(tail.take(n - j) =~= tail.take(n - j - 1).push(tail[n - j - 1]));
            }
            s.append(piece);
        }
        proof {
            assert(tail.take(n as int) =~= tail);
            if display_precision as nat > tail.len() {
                assert(pad =~= Seq::new((display_precision as nat - tail.len()) as nat, |i: int| '0'));
            } else {
                assert(pad =~= Seq::<char>::empty());
            }
        }
        s
    }
}

/// A numeric register: its value, the base it is shown in, its width in bits
/// and the number of digits that width takes in that base.
#[derive(Clone, Copy, Debug, PartialEq, Eq, Structural)]
pub struct Register {
    pub value: u64,
    pub(crate) display_format: DisplayFormat,
    pub(crate) bit_width: u8,
    pub(crate) necessary_precision_for_format: u8,
}

impl Register {
    /// The precision always matches the format and the bit width.
    pub open(crate) spec fn wf(self) -> bool {
        &&& 1 <= self.bit_width <= 64
        &&& self.necessary_precision_for_format as nat == self.display_format.required_width(
            self.bit_width as nat,
        )
    }

    pub open(crate) spec fn spec_value(self) -> u64 {
        self.value
    }

    /// This register holding another value.
    pub open(crate) spec fn with_value(self, value: u64) -> Register {
        Register { value, ..self }
    }

    pub open(crate) spec fn spec_display_format(self) -> DisplayFormat {
        self.display_format
    }

    pub open(crate) spec fn spec_bit_width(self) -> u8 {
        self.bit_width
    }

    pub open(crate) spec fn spec_precision(self) -> u8 {
        self.necessary_precision_for_format
    }

    /// This register as shown after the given format change.
    pub open(crate) spec fn with_format(self, new_format: DisplayFormat) -> Register {
        Register {
            display_format: new_format,
            necessary_precision_for_format: new_format.required_width(
                self.bit_width as nat,
            ) as u8,
            ..self
        }
    }

    /// The register's value as text in its base, padded to its precision.
    pub open(crate) spec fn text(self) -> Seq<char> {
        self.display_format.formatted(self.value as nat, self.necessary_precision_for_format as nat)
    }

    /// The register that `new` makes.
    pub open(crate) spec fn new_spec(value: u64, display_format: DisplayFormat, bit_width: u8) -> Register {
        Register {
            value,
            display_format,
            bit_width,
            necessary_precision_for_format: display_format.required_width(bit_width as nat) as u8,
        }
    }

    pub fn new(value: u64, display_format: DisplayFormat, bit_width: u8) -> (r: Register)
        requires
            1 <= bit_width <= 64,
        ensures
            r == Register::new_spec(value, display_format, bit_width),
            r.wf(),
            r.spec_value() == value,
            r.spec_display_format() == display_format,
            r.spec_bit_width() == bit_width,
    {
        Register {
            value,
            necessary_precision_for_format: display_format.get_required_display_width(bit_width),
            display_format,
            bit_width,
        }
    }

    /// Switches the base and recomputes the precision in the same step.
    pub fn update_display_format(&mut self, new_format: DisplayFormat)
        ensures
            *final(self) == old(self).with_format(new_format),
            old(self).wf() ==> final(self).wf(),
    {
        self.necessary_precision_for_format = new_format.get_required_display_width(
            self.bit_width,
        );
        self.display_format = new_format;
    }

    pub fn display_format(&self) -> (r: DisplayFormat)
        ensures
            r == self.spec_display_format(),
    {
        self.display_format
    }

    pub fn bit_width(&self) -> (r: u8)
        ensures
            r == self.spec_bit_width(),
    {
        self.bit_width
    }

    pub fn display_precision(&self) -> (r: u8)
        ensures
            r == self.spec_precision(),
    {
        self.necessary_precision_for_format
    }

    /// The value in the register's base, padded to its precision.
    pub fn formatted_value(&self) -> (r: String)
        ensures
            r@ == self.text(),
    {
        self.display_format.format_value(self.value, self.necessary_precision_for_format as usize)
    }
}

impl Default for Register {
    fn default() -> (r: Self)
        ensures
            r.wf(),
            r.spec_value() == 0,
            r.spec_display_format() == DisplayFormat::Hex,
            r.spec_bit_width() == 8,
    {
        Register {
            value: 0,
            display_format: DisplayFormat::Hex,
            bit_width: 8,
            necessary_precision_for_format: 2,
        }
    }
}

/// No two entries carry the same name.
pub open spec fn unique_names<V>(s: Seq<(Seq<char>, V)>) -> bool {
    forall|i: int, j: int| 0 <= i < j < s.len() ==> s[i].0 != s[j].0
}

/// The names of a sequence of named entries, in order.
pub open spec fn names<V>(s: Seq<(Seq<char>, V)>) -> Seq<Seq<char>> {
    s.map_values(|p: (Seq<char>, V)| p.0)
}

/// The first position that holds `key`, if there is one.
pub open spec fn find_key(names: Seq<Seq<char>>, key: Seq<char>) -> Option<int> {
    if exists|i: int| first_at(names, key, i) {
        Some(choose|i: int| first_at(names, key, i))
    } else {
        None
    }
}

/// `key` stands at `i` and nowhere before.
pub open spec fn first_at(names: Seq<Seq<char>>, key: Seq<char>, i: int) -> bool {
    &&& 0 <= i < names.len()
    &&& names[i] == key
    &&& forall|j: int| 0 <= j < i ==> names[j] != key
}

/// The line that shows a register: its name, a colon, the base prefix and the digits.
pub open spec fn register_line(name: Seq<char>, reg: Register) -> Seq<char> {
    name + seq![':', ' '] + reg.spec_display_format().spec_prefix() + reg.text()
}

/// A named group of registers, each name used once.
pub struct RegisterSet {
    pub registers: Vec<(String, Register)>,
}

impl View for RegisterSet {
    type V = Seq<(Seq<char>, Register)>;

    open spec fn view(&self) -> Seq<(Seq<char>, Register)> {
        self.registers@.map_values(|p: (String, Register)| (p.0@, p.1))
    }
}

impl RegisterSet {
    pub open spec fn wf(&self) -> bool {
        &&& unique_names(self@)
        &&& forall|i: int| 0 <= i < self@.len() ==> (#[trigger] self@[i]).1.wf()
    }

    pub fn new(registers: Vec<(String, Register)>) -> (r: RegisterSet)
        requires
            unique_names(registers@.map_values(|p: (String, Register)| (p.0@, p.1))),
            forall|i: int| 0 <= i < registers@.len() ==> (#[trigger] registers@[i]).1.wf(),
        ensures
            r@ == registers@.map_values(|p: (String, Register)| (p.0@, p.1)),
            r.wf(),
    {
        RegisterSet { registers }
    }

    /// A set without registers.
    pub fn empty() -> (r: RegisterSet)
        ensures
            r@ == Seq::<(Seq<char>, Register)>::empty(),
    {
        RegisterSet { registers: Vec::new() }
    }

    /// Adds `register` under `name` unless the name is taken; says whether it did.
    pub fn add_register(&mut self, name: String, register: Register) -> (r: bool)
        ensures
            r == (find_key(names(old(self)@), name@) is None),
            r ==> final(self)@ == old(self)@.push((name@, register)),
            !r ==> final(self)@ == old(self)@,
    {
        if self.find(&name).is_some() {
            return false;
        }
        self.registers.push((name, register));
        proof {
            assert(final(self)@ =~= old(self)@.push((name@, register)));
        }
        true
    }

    /// One line per register, in the set's order.
    pub fn get_register_strings(&self) -> (r: Vec<String>)
        ensures
            r@.len() == self@.len(),
            forall|i: int|
                0 <= i < r@.len() ==> (#[trigger] r@[i])@ == register_line(self@[i].0, self@[i].1),
    {
        let mut out: Vec<String> = Vec::new();
        let mut i: usize = 0;
        while i < self.registers.len()
            invariant
                i <= self.registers@.len(),
                out@.len() == i,
                forall|k: int|
                    0 <= k < i ==> (#[trigger] out@[k])@ == register_line(self@[k].0, self@[k].1),
            decreases self.registers@.len() - i,
        {
            let (name, reg) = &self.registers[i];
            let mut line = name.clone();
            proof { reveal_strlit(": "); }
            line.append(": ");
            line.append(reg.display_format.prefix());
            let digits = reg.formatted_value();
            line.append(digits.as_str());
            proof {
                assert(line@ =~= register_line(self@[i as int].0, self@[i as int].1));
            }
            out.push(line);
            i = i + 1;
        }
        out
    }

    /// The position of the register called `name`, if the set has one.
    pub fn find(&self, name: &String) -> (r: Option<usize>)
        ensures
            r matches Some(k) ==> find_key(names(self@), name@) == Some(k as int),
            r is None ==> find_key(names(self@), name@) is None,
    {
        let r = find_index(&self.registers, name);
        proof {
            assert(names(self@) =~= self.registers@.map_values(|p: (String, Register)| p.0@));
        }
        r
    }

    /// Sets the value of the register at position `k`.
    pub fn set_value(&mut self, k: usize, value: u64)
        requires
            k < old(self)@.len(),
        ensures
            final(self)@ == old(self)@.update(
                k as int,
                (old(self)@[k as int].0, old(self)@[k as int].1.with_value(value)),
            ),
    {
        let name = self.registers[k].0.clone();
        let mut reg = self.registers[k].1;
        reg.value = value;
        self.registers.set(k, (name, reg));
        proof {
            assert(final(self)@ =~= old(self)@.update(
                k as int,
                (old(self)@[k as int].0, old(self)@[k as int].1.with_value(value)),
            ));
        }
    }

    /// Changes the base of the register at position `k`.
    pub fn set_format(&mut self, k: usize, new_format: DisplayFormat)
        requires
            k < old(self)@.len(),
        ensures
            final(self)@ == old(self)@.update(
                k as int,
                (old(self)@[k as int].0, old(self)@[k as int].1.with_format(new_format)),
            ),
    {
        let name = self.registers[k].0.clone();
        let mut reg = self.registers[k].1;
        reg.update_display_format(new_format);
        self.registers.set(k, (name, reg));
        proof {
            assert(final(self)@ =~= old(self)@.update(
                k as int,
                (old(self)@[k as int].0, old(self)@[k as int].1.with_format(new_format)),
            ));
        }
    }
}

/// The position of the first entry named `key`.
pub fn find_index<V>(entries: &Vec<(String, V)>, key: &String) -> (r: Option<usize>)
    ensures
        r matches Some(k) ==> find_key(entries@.map_values(|p: (String, V)| p.0@), key@) == Some(
            k as int,
        ),
        r is None ==> find_key(entries@.map_values(|p: (String, V)| p.0@), key@) is None,
{
    let ghost s = entries@.map_values(|p: (String, V)| p.0@);
    let mut i: usize = 0;
    while i < entries.len()
        invariant
            i <= entries@.len(),
            s == entries@.map_values(|p: (String, V)| p.0@),
            forall|j: int| 0 <= j < i ==> s[j] != key@,
        decreases entries@.len() - i,
    {
        if entries[i].0 == *key {
            proof {
                assert(first_at(s, key@, i as int));
                let c = choose|c: int| first_at(s, key@, c);
                assert(first_at(s, key@, c));
                if c > i {
                    assert(s[i as int] != key@);
                }
            }
            return Some(i);
        }
        i = i + 1;
    }
    None
}

/// The one-character text of digit `d`.
fn digit_str(d: u64) -> (r: &'static str)
    requires
        d < 16,
    ensures
        r@ == seq![digit_chars()[d as int]],
{
    let all = "0123456789abcdef";
    proof {
        reveal_strlit("0123456789abcdef");
        assert(all@ =~= digit_chars());
    }
    let r = all.substring_char(d as usize, d as usize + 1);
    proof {
        assert(r@ =~= seq![digit_chars()[d as int]]);
    }
    r
}

} // verus!
