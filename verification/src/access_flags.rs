//! Access flags of classes, fields, methods and modules, and their textual form.
use vstd::prelude::*;
use vstd::string::StringExecFns;
use crate::text::push_char;

verus! {

/// What a set of access flags belongs to; some bits mean different things in
/// different contexts.
#[derive(Copy, Clone, Debug, PartialEq, Eq, Structural)]
pub enum AccessFlagContext {
    Class,
    Method,
    Field,
    Module,
}

/// A 16-bit access-flags word together with the context that gives its bits a meaning.
#[non_exhaustive]
#[derive(Copy, Clone, Debug, PartialEq, Eq, Structural)]
pub struct AccessFlags {
    pub value: u16,
    pub context: AccessFlagContext,
}

impl AccessFlags {
    pub const PUBLIC: u16 = 1;
    pub const PRIVATE: u16 = 2;
    pub const PROTECTED: u16 = 4;
    pub const STATIC: u16 = 8;
    pub const FINAL: u16 = 16;
    pub const SUPER: u16 = 32;
    pub const SYNCHRONIZED: u16 = 32;
    pub const BRIDGE: u16 = 64;
    pub const VOLATILE: u16 = 64;
    pub const VARARGS: u16 = 128;
    pub const TRANSIENT: u16 = 128;
    pub const NATIVE: u16 = 256;
    pub const INTERFACE: u16 = 512;
    pub const ABSTRACT: u16 = 1024;
    pub const STRICT: u16 = 2048;
    pub const SYNTHETIC: u16 = 4096;
    pub const ANNOTATION: u16 = 8192;
    pub const ENUM: u16 = 16384;
    pub const MANDATED: u16 = 32768;
    pub const MODULE: u16 = 32768;
}

/// Whether bit `i` of `v` is set.
pub open spec fn bit_set(v: u16, i: u16) -> bool {
    (v >> i) & 1u16 == 1u16
}

/// The keyword that bit `i` stands for in context `ctx`, if it stands for one there.
pub open spec fn flag_word(i: u16, ctx: AccessFlagContext) -> Option<Seq<char>> {
    if i == 0 {
        Some("public"@)
    } else if i == 1 {
        Some("private"@)
    } else if i == 2 {
        Some("protected"@)
    } else if i == 3 {
        Some("static"@)
    } else if i == 4 {
        Some("final"@)
    } else if i == 5 {
        match ctx {
            AccessFlagContext::Class => Some("super"@),
            AccessFlagContext::Module => Some("synchronized"@),
            _ => None,
        }
    } else if i == 6 {
        match ctx {
            AccessFlagContext::Field => Some("volatile"@),
            AccessFlagContext::Method => Some("bridge"@),
            _ => None,
        }
    } else if i == 7 {
        match ctx {
            AccessFlagContext::Field => Some("transient"@),
            AccessFlagContext::Method => Some("varargs"@),
            _ => None,
        }
    } else if i == 8 {
        Some("native"@)
    } else if i == 9 {
        Some("interface"@)
    } else if i == 10 {
        Some("abstract"@)
    } else if i == 11 {
        Some("strict"@)
    } else if i == 12 {
        Some("synthetic"@)
    } else if i == 13 {
        Some("annotation"@)
    } else if i == 14 {
        Some("enum"@)
    } else {
        match ctx {
            AccessFlagContext::Module => Some("mandated"@),
            AccessFlagContext::Class => Some("module"@),
            _ => None,
        }
    }
}

/// The keywords of the set bits below `n`, lowest bit first.
pub open spec fn flag_words(v: u16, ctx: AccessFlagContext, n: u16) -> Seq<Seq<char>>
    decreases n,
{
    if n == 0 {
        Seq::empty()
    } else {
        let before = flag_words(v, ctx, (n - 1) as u16);
        if bit_set(v, (n - 1) as u16) && flag_word((n - 1) as u16, ctx) is Some {
            before.push(flag_word((n - 1) as u16, ctx).unwrap())
        } else {
            before
        }
    }
}

/// Words joined by single spaces.
pub open spec fn join_words(ws: Seq<Seq<char>>) -> Seq<char>
    decreases ws.len(),
{
    if ws.len() == 0 {
        Seq::empty()
    } else if ws.len() == 1 {
        ws[0]
    } else {
        join_words(ws.drop_last()) + seq![' '] + ws.last()
    }
}

/// The textual form of an access-flags word: the keywords of its set bits, lowest
/// bit first, separated by single spaces.
pub open spec fn flags_text(v: u16, ctx: AccessFlagContext) -> Seq<char> {
    join_words(flag_words(v, ctx, 16))
}

/// The keyword that a single access flag prints as, by its mask, as the JVM
/// specification's tables of class, field, method and module flags name it
/// (`ACC_PUBLIC` 0x0001, `ACC_PRIVATE` 0x0002, ...). The masks shared by two
/// flags print by context; in a context where neither applies they print
/// nothing.
pub open spec fn single_flag_text(mask: u16, ctx: AccessFlagContext) -> Option<Seq<char>> {
    if mask == 0x0001 {
        Some(seq!['p', 'u', 'b', 'l', 'i', 'c'])
    } else if mask == 0x0002 {
        Some(seq!['p', 'r', 'i', 'v', 'a', 't', 'e'])
    } else if mask == 0x0004 {
        Some(seq!['p', 'r', 'o', 't', 'e', 'c', 't', 'e', 'd'])
    } else if mask == 0x0008 {
        Some(seq!['s', 't', 'a', 't', 'i', 'c'])
    } else if mask == 0x0010 {
        Some(seq!['f', 'i', 'n', 'a', 'l'])
    } else if mask == 0x0020 {
        Some(
            match ctx {
                AccessFlagContext::Class => seq!['s', 'u', 'p', 'e', 'r'],
                AccessFlagContext::Module => seq!['s', 'y', 'n', 'c', 'h', 'r', 'o', 'n', 'i', 'z', 'e', 'd'],
                _ => Seq::empty(),
            },
        )
    } else if mask == 0x0040 {
        Some(
            match ctx {
                AccessFlagContext::Field => seq!['v', 'o', 'l', 'a', 't', 'i', 'l', 'e'],
                AccessFlagContext::Method => seq!['b', 'r', 'i', 'd', 'g', 'e'],
                _ => Seq::empty(),
            },
        )
    } else if mask == 0x0080 {
        Some(
            match ctx {
                AccessFlagContext::Field => seq!['t', 'r', 'a', 'n', 's', 'i', 'e', 'n', 't'],
                AccessFlagContext::Method => seq!['v', 'a', 'r', 'a', 'r', 'g', 's'],
                _ => Seq::empty(),
            },
        )
    } else if mask == 0x0100 {
        Some(seq!['n', 'a', 't', 'i', 'v', 'e'])
    } else if mask == 0x0200 {
        Some(seq!['i', 'n', 't', 'e', 'r', 'f', 'a', 'c', 'e'])
    } else if mask == 0x0400 {
        Some(seq!['a', 'b', 's', 't', 'r', 'a', 'c', 't'])
    } else if mask == 0x0800 {
        Some(seq!['s', 't', 'r', 'i', 'c', 't'])
    } else if mask == 0x1000 {
        Some(seq!['s', 'y', 'n', 't', 'h', 'e', 't', 'i', 'c'])
    } else if mask == 0x2000 {
        Some(seq!['a', 'n', 'n', 'o', 't', 'a', 't', 'i', 'o', 'n'])
    } else if mask == 0x4000 {
        Some(seq!['e', 'n', 'u', 'm'])
    } else if mask == 0x8000 {
        Some(
            match ctx {
                AccessFlagContext::Module => seq!['m', 'a', 'n', 'd', 'a', 't', 'e', 'd'],
                AccessFlagContext::Class => seq!['m', 'o', 'd', 'u', 'l', 'e'],
                _ => Seq::empty(),
            },
        )
    } else {
        None
    }
}

/// Bit `i` of the single-bit value `1 << k` is set exactly when `i == k`.
proof fn lemma_single_bit(k: u16, i: u16)
    by (bit_vector)
    requires
        k < 16,
        i < 16,
    ensures
        ((1u16 << k) >> i) & 1u16 == 1u16 <==> i == k,
{
}

/// The single-bit values by position.
proof fn lemma_single_bit_values(k: u16)
    by (bit_vector)
    requires
        k < 16,
    ensures
        k == 0 ==> 1u16 << k == 0x0001u16,
        k == 1 ==> 1u16 << k == 0x0002u16,
        k == 2 ==> 1u16 << k == 0x0004u16,
        k == 3 ==> 1u16 << k == 0x0008u16,
        k == 4 ==> 1u16 << k == 0x0010u16,
        k == 5 ==> 1u16 << k == 0x0020u16,
        k == 6 ==> 1u16 << k == 0x0040u16,
        k == 7 ==> 1u16 << k == 0x0080u16,
        k == 8 ==> 1u16 << k == 0x0100u16,
        k == 9 ==> 1u16 << k == 0x0200u16,
        k == 10 ==> 1u16 << k == 0x0400u16,
        k == 11 ==> 1u16 << k == 0x0800u16,
        k == 12 ==> 1u16 << k == 0x1000u16,
        k == 13 ==> 1u16 << k == 0x2000u16,
        k == 14 ==> 1u16 << k == 0x4000u16,
        k == 15 ==> 1u16 << k == 0x8000u16,
{
}

/// The words of a single-bit value: the keyword of its bit once that bit is
/// below `n`, if the bit has one.
proof fn lemma_single_bit_words(k: u16, ctx: AccessFlagContext, n: u16)
    requires
        k < 16,
        n <= 16,
    ensures
        flag_words(1u16 << k, ctx, n) == if k < n && flag_word(k, ctx) is Some {
            seq![flag_word(k, ctx).unwrap()]
        } else {
            Seq::empty()
        },
    decreases n,
{
    if n > 0 {
        lemma_single_bit_words(k, ctx, (n - 1) as u16);
        lemma_single_bit(k, (n - 1) as u16);
        if k < n - 1 && flag_word(k, ctx) is Some {
            assert(seq![flag_word(k, ctx).unwrap()] =~= seq![flag_word(k, ctx).unwrap()]);
        } else if k == n - 1 && flag_word(k, ctx) is Some {
            assert(Seq::<Seq<char>>::empty().push(flag_word(k, ctx).unwrap()) =~= seq![flag_word(k, ctx).unwrap()]);
        }
    }
}

/// An access-flags word with one flag set prints as that flag's keyword from
/// the JVM specification's tables (0x0002 as `private`, 0x0008 as `static`,
/// ...), or as nothing where the flag has no keyword in its context.
pub proof fn lemma_single_flag_text(k: u16, ctx: AccessFlagContext)
    requires
        k < 16,
    ensures
        single_flag_text(1u16 << k, ctx) is Some,
        flags_text(1u16 << k, ctx) == single_flag_text(1u16 << k, ctx).unwrap(),
{
    lemma_single_bit_values(k);
    lemma_single_bit_words(k, ctx, 16);
    reveal_strlit("public");
    reveal_strlit("private");
    reveal_strlit("protected");
    reveal_strlit("static");
    reveal_strlit("final");
    reveal_strlit("super");
    reveal_strlit("synchronized");
    reveal_strlit("volatile");
    reveal_strlit("bridge");
    reveal_strlit("transient");
    reveal_strlit("varargs");
    reveal_strlit("native");
    reveal_strlit("interface");
    reveal_strlit("abstract");
    reveal_strlit("strict");
    reveal_strlit("synthetic");
    reveal_strlit("annotation");
    reveal_strlit("enum");
    reveal_strlit("mandated");
    reveal_strlit("module");
    let ws = flag_words(1u16 << k, ctx, 16);
    if flag_word(k, ctx) is Some {
        assert(join_words(ws) == ws[0]);
        assert(flag_word(k, ctx).unwrap() =~= single_flag_text(1u16 << k, ctx).unwrap());
    } else {
        assert(join_words(ws) =~= Seq::<char>::empty());
        assert(single_flag_text(1u16 << k, ctx).unwrap() =~= Seq::<char>::empty());
    }
}

fn flag_word_exec(i: u16, ctx: AccessFlagContext) -> (r: Option<&'static str>)
    requires
        i < 16,
    ensures
        r is Some <==> flag_word(i, ctx) is Some,
        r matches Some(w) ==> w@ == flag_word(i, ctx).unwrap(),
{
    if i == 0 {
        Some("public")
    } else if i == 1 {
        Some("private")
    } else if i == 2 {
        Some("protected")
    } else if i == 3 {
        Some("static")
    } else if i == 4 {
        Some("final")
    } else if i == 5 {
        match ctx {
            AccessFlagContext::Class => Some("super"),
            AccessFlagContext::Module => Some("synchronized"),
            _ => None,
        }
    } else if i == 6 {
        match ctx {
            AccessFlagContext::Field => Some("volatile"),
            AccessFlagContext::Method => Some("bridge"),
            _ => None,
        }
    } else if i == 7 {
        match ctx {
            AccessFlagContext::Field => Some("transient"),
            AccessFlagContext::Method => Some("varargs"),
            _ => None,
        }
    } else if i == 8 {
        Some("native")
    } else if i == 9 {
        Some("interface")
    } else if i == 10 {
        Some("abstract")
    } else if i == 11 {
        Some("strict")
    } else if i == 12 {
        Some("synthetic")
    } else if i == 13 {
        Some("annotation")
    } else if i == 14 {
        Some("enum")
    } else {
        match ctx {
            AccessFlagContext::Module => Some("mandated"),
            AccessFlagContext::Class => Some("module"),
            _ => None,
        }
    }
}

impl AccessFlags {
    /// The textual form of the flags, e.g. `public static final`.
    pub fn as_string(&self) -> (r: String)
        ensures
            r@ == flags_text(self.value, self.context),
    {
        let mut s = String::new();
        let mut i: u16 = 0;
        let mut any = false;
        while i < 16
            invariant
                i <= 16,
                any == (flag_words(self.value, self.context, i).len() > 0),
                s@ == join_words(flag_words(self.value, self.context, i)),
            decreases 16 - i,
        {
            let ghost ws = flag_words(self.value, self.context, i);
            if (self.value >> i) & 1u16 == 1u16 {
                match flag_word_exec(i, self.context) {
                    Some(w) => {
                        if any {
                            push_char(&mut s, ' ');
                        }
                        s.append(w);
                        any = true;
                        proof {
                            let ws2 = ws.push(w@);
                            assert(ws2.drop_last() =~= ws);
                            if ws.len() == 0 {
                                assert(s@ =~= join_words(ws2));
                            } else {
                                assert(s@ =~= join_words(ws2));
                            }
                        }
                    },
                    None => {},
                }
            }
            i = i + 1;
        }
        s
    }

    /// The union of two flag words, in the context of the left one.
    pub fn bitor(self, rhs: AccessFlags) -> (r: AccessFlags)
        ensures
            r.value == self.value | rhs.value,
            r.context == self.context,
    {
        AccessFlags { value: self.value | rhs.value, context: self.context }
    }

    /// The raw 16-bit word.
    pub fn into_u16(self) -> (r: u16)
        ensures
            r == self.value,
    {
        self.value
    }

    /// Flags of the given context holding the given word.
    pub fn from_parts(context: AccessFlagContext, value: u16) -> (r: AccessFlags)
        ensures
            r.value == value,
            r.context == context,
    {
        AccessFlags { value, context }
    }
}

impl vstd::std_specs::convert::FromSpecImpl<(AccessFlagContext, u16)> for AccessFlags {
    open spec fn obeys_from_spec() -> bool {
        true
    }

    open spec fn from_spec(v: (AccessFlagContext, u16)) -> AccessFlags {
        AccessFlags { value: v.1, context: v.0 }
    }
}

impl From<(AccessFlagContext, u16)> for AccessFlags {
    fn from(value: (AccessFlagContext, u16)) -> (r: AccessFlags) {
        AccessFlags { value: value.1, context: value.0 }
    }
}

} // verus!
