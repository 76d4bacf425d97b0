use vstd::prelude::*;

use crate::category::Category;
use crate::dimension::Dimen;
use crate::font::{Font, FontView};
use crate::glue::Glue;
use crate::makro::{Macro, MacroView};
use crate::math_code::{math_code_of_number, MathCode};
use crate::token::{chars_of_str, Token, TokenView};

verus! {

/// The integer parameters that the state holds.
#[derive(Debug, Clone, Copy, PartialEq, Eq, Structural)]
pub enum IntegerParameter {
    Tolerance,
    Pretolerance,
    TracingParagraphs,
    AdjDemerits,
}

/// The dimension parameters that the state holds.
#[derive(Debug, Clone, Copy, PartialEq, Eq, Structural)]
pub enum DimenParameter {
    HSize,
}

/// The glue parameters that the state holds.
#[derive(Debug, Clone, Copy, PartialEq, Eq, Structural)]
pub enum GlueParameter {
    ParSkip,
    SpaceSkip,
    ParFillSkip,
}

/// What a control sequence or an active character currently means.
pub enum Meaning {
    /// It has been made to mean nothing (by letting it to an undefined
    /// token).
    Undefined,
    /// A primitive command, by name.
    Primitive(String),
    Macro(Macro),
    /// It stands for a character token (`\let\bgroup={`).
    LetCharacter(Token),
    MathChardef(MathCode),
    Fontdef(Font),
}

pub enum MeaningView {
    Undefined,
    Primitive(Seq<char>),
    Macro(MacroView),
    LetCharacter(TokenView),
    MathChardef(MathCode),
    Fontdef(FontView),
}

impl View for Meaning {
    type V = MeaningView;

    open spec fn view(&self) -> MeaningView {
        match self {
            Meaning::Undefined => MeaningView::Undefined,
            Meaning::Primitive(s) => MeaningView::Primitive(s@),
            Meaning::Macro(m) => MeaningView::Macro(m@),
            Meaning::LetCharacter(t) => MeaningView::LetCharacter(t@),
            Meaning::MathChardef(c) => MeaningView::MathChardef(*c),
            Meaning::Fontdef(f) => MeaningView::Fontdef(f@),
        }
    }
}

impl Meaning {
    pub fn duplicate(&self) -> (m: Meaning)
        ensures
            m@ == self@,
            (self matches Meaning::Macro(x) && x.is_valid()) ==> (m matches Meaning::Macro(y)
                && y.is_valid()),
    {
        match self {
            Meaning::Undefined => Meaning::Undefined,
            Meaning::Primitive(s) => Meaning::Primitive(s.clone()),
            Meaning::Macro(m) => Meaning::Macro(m.duplicate()),
            Meaning::LetCharacter(t) => Meaning::LetCharacter(t.duplicate()),
            Meaning::MathChardef(c) => Meaning::MathChardef(*c),
            Meaning::Fontdef(f) => Meaning::Fontdef(f.duplicate()),
        }
    }
}

/// What the state holds a value for.
pub enum Key {
    Meaning(Token),
    Count(u8),
    Category(char),
    MathCode(char),
    IntegerParameter(IntegerParameter),
    DimenParameter(DimenParameter),
    GlueParameter(GlueParameter),
    CurrentFont,
}

pub enum KeyView {
    Meaning(TokenView),
    Count(u8),
    Category(char),
    MathCode(char),
    IntegerParameter(IntegerParameter),
    DimenParameter(DimenParameter),
    GlueParameter(GlueParameter),
    CurrentFont,
}

impl View for Key {
    type V = KeyView;

    open spec fn view(&self) -> KeyView {
        match self {
            Key::Meaning(t) => KeyView::Meaning(t@),
            Key::Count(n) => KeyView::Count(*n),
            Key::Category(c) => KeyView::Category(*c),
            Key::MathCode(c) => KeyView::MathCode(*c),
            Key::IntegerParameter(p) => KeyView::IntegerParameter(*p),
            Key::DimenParameter(p) => KeyView::DimenParameter(*p),
            Key::GlueParameter(p) => KeyView::GlueParameter(*p),
            Key::CurrentFont => KeyView::CurrentFont,
        }
    }
}

impl Key {
    fn duplicate(&self) -> (k: Key)
        ensures
            k@ == self@,
    {
        match self {
            Key::Meaning(t) => Key::Meaning(t.duplicate()),
            Key::Count(n) => Key::Count(*n),
            Key::Category(c) => Key::Category(*c),
            Key::MathCode(c) => Key::MathCode(*c),
            Key::IntegerParameter(p) => Key::IntegerParameter(*p),
            Key::DimenParameter(p) => Key::DimenParameter(*p),
            Key::GlueParameter(p) => Key::GlueParameter(*p),
            Key::CurrentFont => Key::CurrentFont,
        }
    }

    fn equals(&self, other: &Key) -> (b: bool)
        ensures
            b == (self@ == other@),
    {
        match (self, other) {
            (Key::Meaning(a), Key::Meaning(b)) => a.equals(b),
            (Key::Count(a), Key::Count(b)) => *a == *b,
            (Key::Category(a), Key::Category(b)) => *a == *b,
            (Key::MathCode(a), Key::MathCode(b)) => *a == *b,
            (Key::IntegerParameter(a), Key::IntegerParameter(b)) => *a == *b,
            (Key::DimenParameter(a), Key::DimenParameter(b)) => *a == *b,
            (Key::GlueParameter(a), Key::GlueParameter(b)) => *a == *b,
            (Key::CurrentFont, Key::CurrentFont) => true,
            _ => false,
        }
    }
}

/// A value that the state holds.
pub enum Value {
    Meaning(Meaning),
    Integer(i32),
    Category(Category),
    MathCode(MathCode),
    Dimen(Dimen),
    Glue(Glue),
    Font(Font),
}

pub enum ValueView {
    Meaning(MeaningView),
    Integer(i32),
    Category(Category),
    MathCode(MathCode),
    Dimen(Dimen),
    Glue(Glue),
    Font(FontView),
}

impl View for Value {
    type V = ValueView;

    open spec fn view(&self) -> ValueView {
        match self {
            Value::Meaning(m) => ValueView::Meaning(m@),
            Value::Integer(i) => ValueView::Integer(*i),
            Value::Category(c) => ValueView::Category(*c),
            Value::MathCode(c) => ValueView::MathCode(*c),
            Value::Dimen(d) => ValueView::Dimen(*d),
            Value::Glue(g) => ValueView::Glue(*g),
            Value::Font(f) => ValueView::Font(f@),
        }
    }
}

impl Value {
    fn duplicate(&self) -> (v: Value)
        ensures
            v@ == self@,
            value_macros_valid(*self) ==> value_macros_valid(v),
    {
        match self {
            Value::Meaning(m) => Value::Meaning(m.duplicate()),
            Value::Integer(i) => Value::Integer(*i),
            Value::Category(c) => Value::Category(*c),
            Value::MathCode(c) => Value::MathCode(*c),
            Value::Dimen(d) => Value::Dimen(*d),
            Value::Glue(g) => Value::Glue(*g),
            Value::Font(f) => Value::Font(f.duplicate()),
        }
    }
}

/// A macro that the state holds is always a valid one.
pub open spec fn value_macros_valid(v: Value) -> bool {
    v matches Value::Meaning(Meaning::Macro(m)) ==> m.is_valid()
}

/// The assignments made at one level of grouping, oldest first.
pub type LevelView = Seq<(KeyView, ValueView)>;

/// The value that a level gives a key: that of its last entry for the key.
pub open spec fn lookup_level(level: LevelView, k: KeyView) -> Option<ValueView>
    decreases level.len(),
{
    if level.len() == 0 {
        None
    } else if level.last().0 == k {
        Some(level.last().1)
    } else {
        lookup_level(level.drop_last(), k)
    }
}

/// The index of the last entry of a level for a key, or -1.
pub open spec fn last_index_of(level: LevelView, k: KeyView) -> int
    decreases level.len(),
{
    if level.len() == 0 {
        -1
    } else if level.last().0 == k {
        level.len() - 1
    } else {
        last_index_of(level.drop_last(), k)
    }
}

/// A level with the value of a key set: its entry for the key replaced, or
/// a new entry at its end.
pub open spec fn set_in_level(level: LevelView, k: KeyView, v: ValueView) -> LevelView {
    let i = last_index_of(level, k);
    if i >= 0 {
        level.update(i, (k, v))
    } else {
        level.push((k, v))
    }
}

/// The value of a key: the one that the innermost level holding the key
/// gives it.
pub open spec fn lookup(levels: Seq<LevelView>, k: KeyView) -> Option<ValueView>
    decreases levels.len(),
{
    if levels.len() == 0 {
        None
    } else {
        match lookup_level(levels.last(), k) {
            Some(v) => Some(v),
            None => lookup(levels.drop_last(), k),
        }
    }
}

/// The levels after a local assignment: it goes to the innermost level.
pub open spec fn assign_local(levels: Seq<LevelView>, k: KeyView, v: ValueView) -> Seq<LevelView> {
    levels.update(levels.len() - 1, set_in_level(levels.last(), k, v))
}

/// The levels after a global assignment: every level gets it, so that it
/// outlives the groups that are open.
pub open spec fn assign_global(levels: Seq<LevelView>, k: KeyView, v: ValueView) -> Seq<LevelView> {
    Seq::new(levels.len(), |i: int| set_in_level(levels[i], k, v))
}

/// The levels after an assignment, local or global.
pub open spec fn assign(levels: Seq<LevelView>, global: bool, k: KeyView, v: ValueView) -> Seq<LevelView> {
    if global {
        assign_global(levels, k, v)
    } else {
        assign_local(levels, k, v)
    }
}

proof fn lemma_last_index_of(level: LevelView, k: KeyView)
    ensures
        -1 <= last_index_of(level, k) < level.len(),
        last_index_of(level, k) >= 0 ==> level[last_index_of(level, k)].0 == k,
        last_index_of(level, k) >= 0 ==> forall|j: int|
            last_index_of(level, k) < j < level.len() ==> level[j].0 != k,
        last_index_of(level, k) < 0 ==> forall|j: int| 0 <= j < level.len() ==> level[j].0 != k,
        last_index_of(level, k) < 0 <==> lookup_level(level, k) is None,
        last_index_of(level, k) >= 0 ==> lookup_level(level, k) == Some(
            level[last_index_of(level, k)].1,
        ),
    decreases level.len(),
{
    if level.len() > 0 {
        lemma_last_index_of(level.drop_last(), k);
        assert(forall|j: int| 0 <= j < level.len() - 1 ==> level.drop_last()[j] == level[j]);
    }
}

proof fn lemma_lookup_level_no_key_after(level: LevelView, i: int, k: KeyView, e: (KeyView, ValueView))
    requires
        0 <= i < level.len(),
        forall|j: int| i < j < level.len() ==> level[j].0 != k,
        level[i].0 == k,
        e.0 == k,
    ensures
        lookup_level(level.update(i, e), k) == Some(e.1),
    decreases level.len(),
{
    let l2 = level.update(i, e);
    if i < level.len() - 1 {
        assert(l2.drop_last() =~= level.drop_last().update(i, e));
        lemma_lookup_level_no_key_after(level.drop_last(), i, k, e);
    }
}

proof fn lemma_lookup_level_other(level: LevelView, i: int, k: KeyView, k2: KeyView, e: (KeyView, ValueView))
    requires
        0 <= i < level.len(),
        level[i].0 == k,
        e.0 == k,
        k2 != k,
    ensures
        lookup_level(level.update(i, e), k2) == lookup_level(level, k2),
    decreases level.len(),
{
    let l2 = level.update(i, e);
    if i < level.len() - 1 {
        assert(l2.drop_last() =~= level.drop_last().update(i, e));
        lemma_lookup_level_other(level.drop_last(), i, k, k2, e);
    } else {
        assert(l2.drop_last() =~= level.drop_last());
    }
}

/// Setting a key in a level changes what the level gives that key, and
/// nothing else.
pub proof fn lemma_set_in_level(level: LevelView, k: KeyView, v: ValueView, k2: KeyView)
    ensures
        lookup_level(set_in_level(level, k, v), k2) == if k2 == k {
            Some(v)
        } else {
            lookup_level(level, k2)
        },
{
    lemma_last_index_of(level, k);
    let i = last_index_of(level, k);
    if i >= 0 {
        if k2 == k {
            lemma_lookup_level_no_key_after(level, i, k, (k, v));
        } else {
            lemma_lookup_level_other(level, i, k, k2, (k, v));
        }
    } else {
        assert(level.push((k, v)).drop_last() =~= level);
    }
}

/// A read gives back what the last assignment wrote, and an assignment
/// leaves the other keys as they were, local or global.
pub proof fn lemma_assign_then_lookup(levels: Seq<LevelView>, global: bool, k: KeyView, v: ValueView, k2: KeyView)
    requires
        levels.len() >= 1,
    ensures
        lookup(assign(levels, global, k, v), k2) == if k2 == k {
            Some(v)
        } else {
            lookup(levels, k2)
        },
    decreases levels.len(),
{
    lemma_set_in_level(levels.last(), k, v, k2);
    if global {
        let g = assign_global(levels, k, v);
        assert(g.last() == set_in_level(levels.last(), k, v));
        if levels.len() > 1 {
            lemma_assign_then_lookup(levels.drop_last(), global, k, v, k2);
            assert(g.drop_last() =~= assign_global(levels.drop_last(), k, v));
        } else {
            assert(g.drop_last() =~= Seq::<LevelView>::empty());
            assert(levels.drop_last() =~= Seq::<LevelView>::empty());
        }
    } else {
        let l = assign_local(levels, k, v);
        assert(l.last() == set_in_level(levels.last(), k, v));
        assert(l.drop_last() =~= levels.drop_last());
    }
}

/// A local assignment made inside a group is undone when the group ends:
/// opening a group, assigning and closing the group leaves every value as it
/// was.
pub proof fn lemma_local_assignment_is_undone(levels: Seq<LevelView>, k: KeyView, v: ValueView, k2: KeyView)
    requires
        levels.len() >= 1,
    ensures
        lookup(assign(levels.push(Seq::empty()), false, k, v).drop_last(), k2) == lookup(levels, k2),
{
    assert(assign(levels.push(Seq::empty()), false, k, v).drop_last() =~= levels);
}

/// A global assignment made inside a group outlives the group: after the
/// group ends, the key has the assigned value, and the other keys have the
/// values they had before the group.
pub proof fn lemma_global_assignment_survives(levels: Seq<LevelView>, k: KeyView, v: ValueView, k2: KeyView)
    requires
        levels.len() >= 1,
    ensures
        lookup(assign(levels.push(Seq::empty()), true, k, v).drop_last(), k2) == if k2 == k {
            Some(v)
        } else {
            lookup(levels, k2)
        },
{
    let inner = levels.push(Seq::empty());
    assert(assign(inner, true, k, v).drop_last() =~= assign(levels, true, k, v));
    lemma_assign_then_lookup(levels, true, k, v, k2);
}

/// An assignment to one key leaves the value of every other key unchanged.
pub proof fn lemma_assignment_keeps_other(before: TeXState, after: TeXState, global: bool, k: KeyView, v: ValueView, k2: KeyView)
    requires
        before.wf(),
        after.levels() == assign(before.levels(), global, k, v),
        k2 != k,
    ensures
        after.value(k2) == before.value(k2),
{
    lemma_assign_then_lookup(before.levels(), global, k, v, k2);
}

/// An assignment to anything but a category code leaves the category table
/// as it was.
pub proof fn lemma_assignment_keeps_categories(before: TeXState, after: TeXState, global: bool, k: KeyView, v: ValueView)
    requires
        before.wf(),
        after.levels() == assign(before.levels(), global, k, v),
        !(k is Category),
    ensures
        after.category_fn() == before.category_fn(),
{
    assert forall|c: char| after.category_value(c) == before.category_value(c) by {
        lemma_assign_then_lookup(before.levels(), global, k, v, KeyView::Category(c));
    }
    assert(after.category_fn() =~= before.category_fn());
}

/// The category codes before any assignment: those of INITEX, with `{`, `}`,
/// `$`, `&`, `#`, `^`, `_` and `~` as plain TeX sets them, and the end of a
/// line being the character `\n`.
pub open spec fn initial_category(ch: char) -> Category {
    if ch == '\\' {
        Category::Escape
    } else if ch == '{' {
        Category::BeginGroup
    } else if ch == '}' {
        Category::EndGroup
    } else if ch == '$' {
        Category::MathShift
    } else if ch == '&' {
        Category::AlignmentTab
    } else if ch == '\n' {
        Category::EndOfLine
    } else if ch == '#' {
        Category::Parameter
    } else if ch == '^' {
        Category::Superscript
    } else if ch == '_' {
        Category::Subscript
    } else if ch == '\u{0000}' {
        Category::Ignored
    } else if ch == ' ' {
        Category::Space
    } else if ('a' <= ch <= 'z') || ('A' <= ch <= 'Z') {
        Category::Letter
    } else if ch == '~' {
        Category::Active
    } else if ch == '%' {
        Category::Comment
    } else if ch == '\u{00ff}' {
        Category::Invalid
    } else {
        Category::Other
    }
}

pub fn get_initial_category(ch: char) -> (c: Category)
    ensures
        c == initial_category(ch),
{
    if ch == '\\' {
        Category::Escape
    } else if ch == '{' {
        Category::BeginGroup
    } else if ch == '}' {
        Category::EndGroup
    } else if ch == '$' {
        Category::MathShift
    } else if ch == '&' {
        Category::AlignmentTab
    } else if ch == '\n' {
        Category::EndOfLine
    } else if ch == '#' {
        Category::Parameter
    } else if ch == '^' {
        Category::Superscript
    } else if ch == '_' {
        Category::Subscript
    } else if ch == '\u{0000}' {
        Category::Ignored
    } else if ch == ' ' {
        Category::Space
    } else if ('a' <= ch && ch <= 'z') || ('A' <= ch && ch <= 'Z') {
        Category::Letter
    } else if ch == '~' {
        Category::Active
    } else if ch == '%' {
        Category::Comment
    } else if ch == '\u{00ff}' {
        Category::Invalid
    } else {
        Category::Other
    }
}

/// The math codes before any assignment, those of INITEX: a letter is a
/// variable-family character of family 1, a digit one of family 0, and any
/// other character below 256 an ordinary character of family 0.
pub open spec fn initial_math_code(ch: char) -> MathCode {
    if ('a' <= ch <= 'z') || ('A' <= ch <= 'Z') {
        math_code_of_number((0x7100 + ch as u32) as u32)
    } else if '0' <= ch <= '9' {
        math_code_of_number((0x7000 + ch as u32) as u32)
    } else {
        math_code_of_number((ch as u32 % 0x100) as u32)
    }
}

fn get_initial_math_code(ch: char) -> (c: MathCode)
    ensures
        c == initial_math_code(ch),
{
    if ('a' <= ch && ch <= 'z') || ('A' <= ch && ch <= 'Z') {
        MathCode::from_number(0x7100 + ch as u32)
    } else if '0' <= ch && ch <= '9' {
        MathCode::from_number(0x7000 + ch as u32)
    } else {
        MathCode::from_number(ch as u32 % 0x100)
    }
}

/// The names of the primitive commands that the state knows from the start.
pub open spec fn primitive_names() -> Seq<Seq<char>> {
    seq![
        "relax"@, "def"@, "let"@, "global"@, "count"@, "advance"@, "multiply"@, "divide"@,
        "iftrue"@, "iffalse"@, "ifnum"@, "else"@, "fi"@, "number"@, "mathchardef"@, "mathcode"@,
        "font"@, "prevdepth"@, "tolerance"@, "pretolerance"@, "tracingparagraphs"@,
        "adjdemerits"@, "wd"@, "ht"@, "dp"@, "hsize"@, "parskip"@, "spaceskip"@, "parfillskip"@,
        "setbox"@, "hbox"@, "vbox"@, "box"@, "copy"@, "hskip"@, "vskip"@, "par"@, "end"@,
        "char"@, "indent"@, "noindent"@, "moveleft"@, "moveright"@, "over"@, "atop"@, "above"@,
        "overwithdelims"@, "atopwithdelims"@, "abovewithdelims"@, "displaystyle"@, "textstyle"@,
        "scriptstyle"@, "scriptscriptstyle"@,
    ]
}

fn primitive_name_list() -> (names: Vec<&'static str>)
    ensures
        names@.map_values(|s: &str| s@) == primitive_names(),
{
    let names = vec![
        "relax", "def", "let", "global", "count", "advance", "multiply", "divide", "iftrue",
        "iffalse", "ifnum", "else", "fi", "number", "mathchardef", "mathcode", "font", "prevdepth",
        "tolerance", "pretolerance", "tracingparagraphs", "adjdemerits", "wd", "ht", "dp", "hsize",
        "parskip", "spaceskip", "parfillskip", "setbox", "hbox", "vbox", "box", "copy", "hskip",
        "vskip", "par", "end", "char", "indent", "noindent", "moveleft", "moveright", "over", "atop",
        "above", "overwithdelims", "atopwithdelims", "abovewithdelims", "displaystyle", "textstyle",
        "scriptstyle", "scriptscriptstyle",
    ];
    assert(names@.map_values(|s: &str| s@) =~= primitive_names());
    names
}

/// Whether a key is the meaning of a control sequence named in `names`.
pub open spec fn names_primitive(k: KeyView, names: Seq<Seq<char>>) -> bool {
    match k {
        KeyView::Meaning(TokenView::ControlSequence(n)) => names.contains(n),
        _ => false,
    }
}

/// The state of the TeX machine: every assignment that is in force, level
/// by level of grouping, outermost first.
pub struct TeXState {
    levels: Vec<Vec<(Key, Value)>>,
}

pub open spec fn entry_views(level: Seq<(Key, Value)>) -> LevelView {
    level.map_values(|e: (Key, Value)| (e.0@, e.1@))
}

impl TeXState {
    pub closed spec fn levels(&self) -> Seq<LevelView> {
        self.levels@.map_values(|l: Vec<(Key, Value)>| entry_views(l@))
    }

    pub closed spec fn wf(&self) -> bool {
        &&& self.levels.len() >= 1
        &&& forall|i: int, j: int|
            0 <= i < self.levels.len() && 0 <= j < self.levels@[i].len()
                ==> value_macros_valid(#[trigger] self.levels@[i]@[j].1)
    }

    /// The value of a key.
    pub open spec fn value(&self, k: KeyView) -> Option<ValueView> {
        lookup(self.levels(), k)
    }

    /// How many levels of grouping there are, the outermost included.
    pub open spec fn depth(&self) -> nat {
        self.levels().len()
    }
}


/// The index of the last entry of a level for a key.
fn find_in_level(level: &Vec<(Key, Value)>, k: &Key) -> (r: Option<usize>)
    ensures
        match r {
            Some(i) => i == last_index_of(entry_views(level@), k@),
            None => last_index_of(entry_views(level@), k@) < 0,
        },
{
    let ghost lv = entry_views(level@);
    assert(lv.subrange(0, lv.len() as int) =~= lv);
    let mut i: usize = level.len();
    while i > 0
        invariant
            i <= level.len(),
            lv == entry_views(level@),
            last_index_of(lv, k@) == last_index_of(lv.subrange(0, i as int), k@),
        decreases i,
    {
        let ghost sub = lv.subrange(0, i as int);
        assert(sub.drop_last() =~= lv.subrange(0, i - 1));
        if level[i - 1].0.equals(k) {
            assert(sub.last() == lv[i - 1]);
            return Some(i - 1);
        }
        i = i - 1;
    }
    assert(lv.subrange(0, 0) =~= Seq::<(KeyView, ValueView)>::empty());
    None
}

/// Sets a key in a level; see `set_in_level`.
fn set_entry(level: &mut Vec<(Key, Value)>, k: Key, v: Value)
    requires
        value_macros_valid(v),
        forall|j: int| 0 <= j < old(level).len() ==> value_macros_valid(#[trigger] old(level)@[j].1),
    ensures
        entry_views(final(level)@) == set_in_level(entry_views(old(level)@), k@, v@),
        forall|j: int| 0 <= j < final(level).len() ==> value_macros_valid(#[trigger] final(level)@[j].1),
{
    let ghost kv = k@;
    let ghost vv = v@;
    match find_in_level(level, &k) {
        Some(i) => {
            proof {
                lemma_last_index_of(entry_views(level@), kv);
            }
            level.set(i, (k, v));
            assert(entry_views(level@) =~= set_in_level(entry_views(old(level)@), kv, vv));
        },
        None => {
            level.push((k, v));
            assert(entry_views(level@) =~= set_in_level(entry_views(old(level)@), kv, vv));
        },
    }
}

/// A key that is not a primitive's name has no value in a state that gives
/// no value to any such key.
proof fn lemma_unassigned_key(state: TeXState, k: KeyView)
    requires
        forall|k2: KeyView| !names_primitive(k2, primitive_names()) ==> (#[trigger] state.value(k2)) is None,
        !names_primitive(k, primitive_names()),
    ensures
        state.value(k) is None,
{
}

impl TeXState {
    /// A state in which nothing has been assigned: every primitive command
    /// means itself, and every other value has its initial value.
    pub fn new() -> (state: TeXState)
        ensures
            state.wf(),
            state.depth() == 1,
            forall|i: int|
                0 <= i < primitive_names().len() ==> state.value(
                    KeyView::Meaning(TokenView::ControlSequence(#[trigger] primitive_names()[i])),
                ) == Some(ValueView::Meaning(MeaningView::Primitive(primitive_names()[i]))),
            forall|k: KeyView| !names_primitive(k, primitive_names()) ==> (#[trigger] state.value(k)) is None,
            forall|c: char| #[trigger] state.category_value(c) == initial_category(c),
            forall|c: char| #[trigger] state.math_code_value(c) == initial_math_code(c),
    {
        let names = primitive_name_list();
        let mut level: Vec<(Key, Value)> = Vec::new();
        let mut i: usize = 0;
        while i < names.len()
            invariant
                i <= names.len(),
                names@.map_values(|s: &str| s@) == primitive_names(),
                forall|j: int| 0 <= j < level.len() ==> value_macros_valid(#[trigger] level@[j].1),
                forall|j: int|
                    0 <= j < i ==> lookup_level(
                        entry_views(level@),
                        KeyView::Meaning(TokenView::ControlSequence(#[trigger] primitive_names()[j])),
                    ) == Some(ValueView::Meaning(MeaningView::Primitive(primitive_names()[j]))),
                forall|k: KeyView|
                    !names_primitive(k, primitive_names().subrange(0, i as int)) ==> lookup_level(
                        entry_views(level@),
                        k,
                    ) is None,
            decreases names.len() - i,
        {
            let name = names[i];
            let ghost nv = primitive_names()[i as int];
            assert(name@ == nv);
            let k = Key::Meaning(Token::ControlSequence(name.to_owned()));
            let v = Value::Meaning(Meaning::Primitive(name.to_owned()));
            let ghost old_level = entry_views(level@);
            let ghost kv = k@;
            let ghost vv = v@;
            set_entry(&mut level, k, v);
            proof {
                assert forall|j: int| 0 <= j < i + 1 implies lookup_level(
                    entry_views(level@),
                    KeyView::Meaning(TokenView::ControlSequence(#[trigger] primitive_names()[j])),
                ) == Some(ValueView::Meaning(MeaningView::Primitive(primitive_names()[j]))) by {
                    lemma_set_in_level(
                        old_level,
                        kv,
                        vv,
                        KeyView::Meaning(TokenView::ControlSequence(primitive_names()[j])),
                    );
                }
                assert forall|k2: KeyView|
                    !names_primitive(k2, primitive_names().subrange(0, i + 1)) implies lookup_level(
                    entry_views(level@),
                    k2,
                ) is None by {
                    lemma_set_in_level(old_level, kv, vv, k2);
                    assert(kv == KeyView::Meaning(TokenView::ControlSequence(nv)));
                    assert(primitive_names().subrange(0, i + 1)[i as int] == nv);
                    assert(primitive_names().subrange(0, i + 1).contains(nv));
                    assert(k2 != kv);
                    if !names_primitive(k2, primitive_names().subrange(0, i as int)) {
                        assert(lookup_level(old_level, k2) is None);
                    }
                    if let KeyView::Meaning(TokenView::ControlSequence(n)) = k2 {
                        if primitive_names().subrange(0, i as int).contains(n) {
                            let w = choose|w: int|
                                0 <= w < i && primitive_names().subrange(0, i as int)[w] == n;
                            assert(primitive_names().subrange(0, i + 1)[w] == n);
                        }
                        assert(primitive_names().subrange(0, i + 1)[i as int] == nv);
                    }
                }
            }
            i = i + 1;
        }
        assert(names@.map_values(|s: &str| s@).len() == names.len());
        assert(primitive_names().subrange(0, i as int) =~= primitive_names());
        let ghost final_level = entry_views(level@);
        assert(forall|k: KeyView| !names_primitive(k, primitive_names()) ==> #[trigger] lookup_level(final_level, k) is None);
        let mut levels: Vec<Vec<(Key, Value)>> = Vec::new();
        levels.push(level);
        let state = TeXState { levels };
        proof {
            let lv = state.levels();
            assert(lv.len() == 1);
            assert(lv.drop_last() =~= Seq::<LevelView>::empty());
            assert(lv.last() == entry_views(state.levels@[0]@));
            assert forall|k: KeyView| !names_primitive(k, primitive_names()) implies state.value(k)
                is None by {
                assert(lookup_level(lv.last(), k) is None);
                assert(lookup(lv.drop_last(), k) is None);
            }
            assert forall|i: int| 0 <= i < primitive_names().len() implies state.value(
                KeyView::Meaning(TokenView::ControlSequence(#[trigger] primitive_names()[i])),
            ) == Some(ValueView::Meaning(MeaningView::Primitive(primitive_names()[i]))) by {}
            assert forall|c: char| #[trigger] state.category_value(c) == initial_category(c) by {
                lemma_unassigned_key(state, KeyView::Category(c));
            }
            assert forall|c: char| #[trigger] state.math_code_value(c) == initial_math_code(c) by {
                lemma_unassigned_key(state, KeyView::MathCode(c));
            }
        }
        state
    }

    /// Opens a group: assignments from now on are undone when it closes.
    pub fn push_state(&mut self)
        requires
            old(self).wf(),
        ensures
            final(self).wf(),
            final(self).levels() == old(self).levels().push(Seq::empty()),
    {
        let empty: Vec<(Key, Value)> = Vec::new();
        assert(entry_views(empty@) =~= Seq::<(KeyView, ValueView)>::empty());
        self.levels.push(empty);
        assert(self.levels() =~= old(self).levels().push(Seq::empty()));
    }

    /// Closes the innermost group, undoing the local assignments made in it.
    pub fn pop_state(&mut self)
        requires
            old(self).wf(),
            old(self).depth() > 1,
        ensures
            final(self).wf(),
            final(self).levels() == old(self).levels().drop_last(),
    {
        self.levels.pop();
        assert(self.levels() =~= old(self).levels().drop_last());
    }

    /// How many levels of grouping there are.
    pub fn get_depth(&self) -> (d: usize)
        ensures
            d == self.depth(),
    {
        self.levels.len()
    }

    fn lookup(&self, k: &Key) -> (r: Option<&Value>)
        requires
            self.wf(),
        ensures
            match r {
                Some(v) => self.value(k@) == Some(v@) && value_macros_valid(*v),
                None => self.value(k@) is None,
            },
    {
        let ghost lv = self.levels();
        assert(lv.subrange(0, lv.len() as int) =~= lv);
        let mut i: usize = self.levels.len();
        while i > 0
            invariant
                i <= self.levels.len(),
                lv == self.levels(),
                self.wf(),
                lookup(lv, k@) == lookup(lv.subrange(0, i as int), k@),
            decreases i,
        {
            let ghost sub = lv.subrange(0, i as int);
            assert(sub.drop_last() =~= lv.subrange(0, i - 1));
            assert(sub.last() == entry_views(self.levels@[i - 1]@));
            let level = &self.levels[i - 1];
            match find_in_level(level, k) {
                Some(j) => {
                    proof {
                        lemma_last_index_of(entry_views(level@), k@);
                        assert(value_macros_valid(self.levels@[i - 1]@[j as int].1));
                    }
                    return Some(&level[j].1);
                },
                None => {
                    proof {
                        lemma_last_index_of(entry_views(level@), k@);
                    }
                },
            }
            i = i - 1;
        }
        assert(lv.subrange(0, 0) =~= Seq::<LevelView>::empty());
        None
    }

    fn assign(&mut self, global: bool, k: Key, v: Value)
        requires
            old(self).wf(),
            value_macros_valid(v),
        ensures
            final(self).wf(),
            final(self).levels() == assign(old(self).levels(), global, k@, v@),
    {
        let ghost old_levels = self.levels();
        let ghost kv = k@;
        let ghost vv = v@;
        if global {
            let n = self.levels.len();
            let mut reversed: Vec<Vec<(Key, Value)>> = Vec::new();
            while self.levels.len() > 0
                invariant
                    self.levels.len() + reversed.len() == n,
                    n == old_levels.len(),
                    n >= 1,
                    k@ == kv,
                    v@ == vv,
                    value_macros_valid(v),
                    forall|i: int| 0 <= i < self.levels.len() ==> entry_views(#[trigger] self.levels@[i]@)
                        == old_levels[i],
                    forall|i: int, j: int|
                        0 <= i < self.levels.len() && 0 <= j < self.levels@[i].len()
                            ==> value_macros_valid(#[trigger] self.levels@[i]@[j].1),
                    forall|i: int| 0 <= i < reversed.len() ==> entry_views(#[trigger] reversed@[i]@)
                        == set_in_level(old_levels[n - 1 - i], kv, vv),
                    forall|i: int, j: int|
                        0 <= i < reversed.len() && 0 <= j < reversed@[i].len()
                            ==> value_macros_valid(#[trigger] reversed@[i]@[j].1),
                decreases self.levels.len(),
            {
                let mut level = self.levels.pop().unwrap();
                let k2 = k.duplicate();
                let v2 = v.duplicate();
                set_entry(&mut level, k2, v2);
                reversed.push(level);
            }
            while reversed.len() > 0
                invariant
                    self.levels.len() + reversed.len() == n,
                    n == old_levels.len(),
                    n >= 1,
                    forall|i: int| 0 <= i < reversed.len() ==> entry_views(#[trigger] reversed@[i]@)
                        == set_in_level(old_levels[n - 1 - i], kv, vv),
                    forall|i: int, j: int|
                        0 <= i < reversed.len() && 0 <= j < reversed@[i].len()
                            ==> value_macros_valid(#[trigger] reversed@[i]@[j].1),
                    forall|i: int| 0 <= i < self.levels.len() ==> entry_views(#[trigger] self.levels@[i]@)
                        == set_in_level(old_levels[i], kv, vv),
                    forall|i: int, j: int|
                        0 <= i < self.levels.len() && 0 <= j < self.levels@[i].len()
                            ==> value_macros_valid(#[trigger] self.levels@[i]@[j].1),
                decreases reversed.len(),
            {
                let level = reversed.pop().unwrap();
                self.levels.push(level);
            }
            assert(self.levels() =~= assign(old_levels, global, kv, vv));
        } else {
            let mut top = self.levels.pop().unwrap();
            set_entry(&mut top, k, v);
            self.levels.push(top);
            assert(self.levels() =~= assign(old_levels, global, kv, vv));
        }
    }
}


/// The meaning that `\let` gives a name from a token: a control sequence or
/// an active character passes on its meaning (nothing, when it has none); any
/// other character is passed on itself.
pub open spec fn let_meaning(meaning: Option<MeaningView>, value: TokenView) -> MeaningView {
    if value is ControlSequence || value matches TokenView::Char(_, Category::Active) {
        match meaning {
            Some(m) => m,
            None => MeaningView::Undefined,
        }
    } else {
        MeaningView::LetCharacter(value)
    }
}

impl TeXState {
    /// The meaning of a token, if it has been given one.
    pub open spec fn meaning_of(&self, t: TokenView) -> Option<MeaningView> {
        match self.value(KeyView::Meaning(t)) {
            Some(ValueView::Meaning(m)) => Some(m),
            _ => None,
        }
    }

    pub open spec fn count_value(&self, index: u8) -> i32 {
        match self.value(KeyView::Count(index)) {
            Some(ValueView::Integer(i)) => i,
            _ => 0,
        }
    }

    pub open spec fn category_value(&self, ch: char) -> Category {
        match self.value(KeyView::Category(ch)) {
            Some(ValueView::Category(c)) => c,
            _ => initial_category(ch),
        }
    }

    pub open spec fn math_code_value(&self, ch: char) -> MathCode {
        match self.value(KeyView::MathCode(ch)) {
            Some(ValueView::MathCode(c)) => c,
            _ => initial_math_code(ch),
        }
    }

    pub open spec fn integer_parameter_value(&self, p: IntegerParameter) -> i32 {
        match self.value(KeyView::IntegerParameter(p)) {
            Some(ValueView::Integer(i)) => i,
            _ => 0,
        }
    }

    pub open spec fn dimen_parameter_value(&self, p: DimenParameter) -> int {
        match self.value(KeyView::DimenParameter(p)) {
            Some(ValueView::Dimen(d)) => d.sp(),
            _ => 0,
        }
    }

    pub open spec fn glue_parameter_value(&self, p: GlueParameter) -> Option<Glue> {
        match self.value(KeyView::GlueParameter(p)) {
            Some(ValueView::Glue(g)) => Some(g),
            _ => None,
        }
    }

    pub open spec fn current_font_value(&self) -> Option<FontView> {
        match self.value(KeyView::CurrentFont) {
            Some(ValueView::Font(f)) => Some(f),
            _ => None,
        }
    }

    /// The macro that a token stands for, if it stands for one.
    pub fn get_macro(&self, token: &Token) -> (r: Option<Macro>)
        requires
            self.wf(),
        ensures
            match r {
                Some(m) => self.meaning_of(token@) == Some(MeaningView::Macro(m@)) && m.is_valid(),
                None => !(self.meaning_of(token@) matches Some(MeaningView::Macro(_))),
            },
    {
        match self.lookup(&Key::Meaning(token.duplicate())) {
            Some(Value::Meaning(Meaning::Macro(m))) => Some(m.duplicate()),
            _ => None,
        }
    }

    pub fn set_macro(&mut self, global: bool, token: &Token, makro: &Macro)
        requires
            old(self).wf(),
            makro.is_valid(),
        ensures
            final(self).wf(),
            final(self).levels() == assign(
                old(self).levels(),
                global,
                KeyView::Meaning(token@),
                ValueView::Meaning(MeaningView::Macro(makro@)),
            ),
    {
        self.assign(global, Key::Meaning(token.duplicate()), Value::Meaning(Meaning::Macro(makro.duplicate())));
    }

    /// The character token that a token has been let to, if any.
    pub fn get_renamed_token(&self, token: &Token) -> (r: Option<Token>)
        requires
            self.wf(),
        ensures
            match r {
                Some(t) => self.meaning_of(token@) == Some(MeaningView::LetCharacter(t@)),
                None => !(self.meaning_of(token@) matches Some(MeaningView::LetCharacter(_))),
            },
    {
        match self.lookup(&Key::Meaning(token.duplicate())) {
            Some(Value::Meaning(Meaning::LetCharacter(t))) => Some(t.duplicate()),
            _ => None,
        }
    }

    /// Whether a token means the primitive command of the given name.
    pub fn is_token_equal_to_prim(&self, token: &Token, prim: &str) -> (b: bool)
        requires
            self.wf(),
        ensures
            b == (self.meaning_of(token@) == Some(MeaningView::Primitive(prim@))),
    {
        match self.lookup(&Key::Meaning(token.duplicate())) {
            Some(Value::Meaning(Meaning::Primitive(name))) => name.eq(&prim.to_owned()),
            _ => false,
        }
    }

    /// `\let`: gives `name` the meaning of `value`; see `let_meaning`.
    pub fn set_let(&mut self, global: bool, name: &Token, value: &Token)
        requires
            old(self).wf(),
        ensures
            final(self).wf(),
            final(self).levels() == assign(
                old(self).levels(),
                global,
                KeyView::Meaning(name@),
                ValueView::Meaning(let_meaning(old(self).meaning_of(value@), value@)),
            ),
    {
        let passes_meaning = match value {
            Token::ControlSequence(_) => true,
            Token::Char(_, Category::Active) => true,
            _ => false,
        };
        let meaning = if passes_meaning {
            match self.lookup(&Key::Meaning(value.duplicate())) {
                Some(Value::Meaning(m)) => m.duplicate(),
                _ => Meaning::Undefined,
            }
        } else {
            Meaning::LetCharacter(value.duplicate())
        };
        self.assign(global, Key::Meaning(name.duplicate()), Value::Meaning(meaning));
    }

    /// The value of a `\count` register.
    pub fn get_count(&self, index: u8) -> (r: i32)
        requires
            self.wf(),
        ensures
            r == self.count_value(index),
    {
        match self.lookup(&Key::Count(index)) {
            Some(Value::Integer(i)) => *i,
            _ => 0,
        }
    }

    pub fn set_count(&mut self, global: bool, index: u8, value: i32)
        requires
            old(self).wf(),
        ensures
            final(self).wf(),
            final(self).levels() == assign(
                old(self).levels(),
                global,
                KeyView::Count(index),
                ValueView::Integer(value),
            ),
    {
        self.assign(global, Key::Count(index), Value::Integer(value));
    }

    /// The category code of a character.
    pub fn get_category(&self, ch: char) -> (r: Category)
        requires
            self.wf(),
        ensures
            r == self.category_value(ch),
    {
        match self.lookup(&Key::Category(ch)) {
            Some(Value::Category(c)) => *c,
            _ => get_initial_category(ch),
        }
    }

    pub fn set_category(&mut self, global: bool, ch: char, category: Category)
        requires
            old(self).wf(),
        ensures
            final(self).wf(),
            final(self).levels() == assign(
                old(self).levels(),
                global,
                KeyView::Category(ch),
                ValueView::Category(category),
            ),
    {
        self.assign(global, Key::Category(ch), Value::Category(category));
    }

    pub fn get_math_code(&self, ch: char) -> (r: MathCode)
        requires
            self.wf(),
        ensures
            r == self.math_code_value(ch),
    {
        match self.lookup(&Key::MathCode(ch)) {
            Some(Value::MathCode(c)) => *c,
            _ => get_initial_math_code(ch),
        }
    }

    pub fn set_math_code(&mut self, global: bool, ch: char, code: &MathCode)
        requires
            old(self).wf(),
        ensures
            final(self).wf(),
            final(self).levels() == assign(
                old(self).levels(),
                global,
                KeyView::MathCode(ch),
                ValueView::MathCode(*code),
            ),
    {
        self.assign(global, Key::MathCode(ch), Value::MathCode(*code));
    }

    /// The math code that a token was `\mathchardef`ed to, if any.
    pub fn get_math_chardef(&self, token: &Token) -> (r: Option<MathCode>)
        requires
            self.wf(),
        ensures
            match r {
                Some(c) => self.meaning_of(token@) == Some(MeaningView::MathChardef(c)),
                None => !(self.meaning_of(token@) matches Some(MeaningView::MathChardef(_))),
            },
    {
        match self.lookup(&Key::Meaning(token.duplicate())) {
            Some(Value::Meaning(Meaning::MathChardef(c))) => Some(*c),
            _ => None,
        }
    }

    pub fn set_math_chardef(&mut self, global: bool, token: &Token, code: &MathCode)
        requires
            old(self).wf(),
        ensures
            final(self).wf(),
            final(self).levels() == assign(
                old(self).levels(),
                global,
                KeyView::Meaning(token@),
                ValueView::Meaning(MeaningView::MathChardef(*code)),
            ),
    {
        self.assign(global, Key::Meaning(token.duplicate()), Value::Meaning(Meaning::MathChardef(*code)));
    }

    /// The font that a token was defined to select with `\font`, if any.
    pub fn get_fontdef(&self, token: &Token) -> (r: Option<Font>)
        requires
            self.wf(),
        ensures
            match r {
                Some(f) => self.meaning_of(token@) == Some(MeaningView::Fontdef(f@)),
                None => !(self.meaning_of(token@) matches Some(MeaningView::Fontdef(_))),
            },
    {
        match self.lookup(&Key::Meaning(token.duplicate())) {
            Some(Value::Meaning(Meaning::Fontdef(f))) => Some(f.duplicate()),
            _ => None,
        }
    }

    pub fn set_fontdef(&mut self, global: bool, token: &Token, font: &Font)
        requires
            old(self).wf(),
        ensures
            final(self).wf(),
            final(self).levels() == assign(
                old(self).levels(),
                global,
                KeyView::Meaning(token@),
                ValueView::Meaning(MeaningView::Fontdef(font@)),
            ),
    {
        self.assign(global, Key::Meaning(token.duplicate()), Value::Meaning(Meaning::Fontdef(font.duplicate())));
    }

    /// The current font; before any is selected, `nullfont` at size zero.
    pub fn get_current_font(&self) -> (f: Font)
        requires
            self.wf(),
        ensures
            match self.current_font_value() {
                Some(c) => f@ == c,
                None => f@.font_name == "nullfont"@ && f@.scale.sp() == 0,
            },
    {
        match self.lookup(&Key::CurrentFont) {
            Some(Value::Font(f)) => f.duplicate(),
            _ => Font { font_name: "nullfont".to_owned(), scale: Dimen::zero() },
        }
    }

    pub fn set_current_font(&mut self, global: bool, font: &Font)
        requires
            old(self).wf(),
        ensures
            final(self).wf(),
            final(self).levels() == assign(
                old(self).levels(),
                global,
                KeyView::CurrentFont,
                ValueView::Font(font@),
            ),
    {
        self.assign(global, Key::CurrentFont, Value::Font(font.duplicate()));
    }

    pub fn get_integer_parameter(&self, p: IntegerParameter) -> (r: i32)
        requires
            self.wf(),
        ensures
            r == self.integer_parameter_value(p),
    {
        match self.lookup(&Key::IntegerParameter(p)) {
            Some(Value::Integer(i)) => *i,
            _ => 0,
        }
    }

    pub fn set_integer_parameter(&mut self, global: bool, p: IntegerParameter, value: i32)
        requires
            old(self).wf(),
        ensures
            final(self).wf(),
            final(self).levels() == assign(
                old(self).levels(),
                global,
                KeyView::IntegerParameter(p),
                ValueView::Integer(value),
            ),
    {
        self.assign(global, Key::IntegerParameter(p), Value::Integer(value));
    }

    pub fn get_dimen_parameter(&self, p: DimenParameter) -> (r: Dimen)
        requires
            self.wf(),
        ensures
            r.sp() == self.dimen_parameter_value(p),
    {
        match self.lookup(&Key::DimenParameter(p)) {
            Some(Value::Dimen(d)) => *d,
            _ => Dimen::zero(),
        }
    }

    pub fn set_dimen_parameter(&mut self, global: bool, p: DimenParameter, value: Dimen)
        requires
            old(self).wf(),
        ensures
            final(self).wf(),
            final(self).levels() == assign(
                old(self).levels(),
                global,
                KeyView::DimenParameter(p),
                ValueView::Dimen(value),
            ),
    {
        self.assign(global, Key::DimenParameter(p), Value::Dimen(value));
    }

    /// The value of a glue parameter; zero glue before any assignment.
    pub fn get_glue_parameter(&self, p: GlueParameter) -> (r: Glue)
        requires
            self.wf(),
        ensures
            match self.glue_parameter_value(p) {
                Some(g) => r == g,
                None => r.space.sp() == 0 && (r.stretch matches crate::dimension::SpringDimen::Dimen(
                    d,
                ) && d.sp() == 0) && (r.shrink matches crate::dimension::SpringDimen::Dimen(e)
                    && e.sp() == 0),
            },
    {
        match self.lookup(&Key::GlueParameter(p)) {
            Some(Value::Glue(g)) => *g,
            _ => Glue::zero(),
        }
    }

    pub fn set_glue_parameter(&mut self, global: bool, p: GlueParameter, value: Glue)
        requires
            old(self).wf(),
        ensures
            final(self).wf(),
            final(self).levels() == assign(
                old(self).levels(),
                global,
                KeyView::GlueParameter(p),
                ValueView::Glue(value),
            ),
    {
        self.assign(global, Key::GlueParameter(p), Value::Glue(value));
    }
}

} // verus!
