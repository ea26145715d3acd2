//! Keyboard and mouse: which keys stand for which actions, and what is held or was pressed.
use vstd::prelude::*;
use vstd::string::{StrSliceExecFns, StringExecFns};
use crate::scalar::Scalar;
use crate::text::join3;
use crate::text_map::same_text;

verus! {

/// What `str::to_lowercase` returns.
pub uninterp spec fn lowercase_of(text: Seq<char>) -> Seq<char>;

/// The characters that Unicode counts as white space.
pub open spec fn space_char(c: char) -> bool {
    let n = c as u32;
    ||| 0x9 <= n <= 0xd
    ||| n == 0x20 || n == 0x85 || n == 0xa0 || n == 0x1680
    ||| 0x2000 <= n <= 0x200a
    ||| n == 0x2028 || n == 0x2029 || n == 0x202f || n == 0x205f || n == 0x3000
}

/// `str::to_lowercase`: the text with every character in lower case, as Unicode has it.
#[verifier::external_body]
fn to_lowercase(text: &str) -> (r: String)
    ensures
        r@ == lowercase_of(text@),
{
    text.to_lowercase()
}

fn is_space(c: char) -> (r: bool)
    ensures
        r == space_char(c),
{
    let n: u32 = c as u32;
    (0x9 <= n && n <= 0xd) || n == 0x20 || n == 0x85 || n == 0xa0 || n == 0x1680 || (0x2000 <= n
        && n <= 0x200a) || n == 0x2028 || n == 0x2029 || n == 0x202f || n == 0x205f || n == 0x3000
}

/// How many characters at the start are white space, from `i` on.
pub open spec fn first_word(text: Seq<char>, i: int) -> int
    decreases text.len() - i,
{
    if 0 <= i < text.len() && space_char(text[i]) {
        first_word(text, i + 1)
    } else {
        i
    }
}

/// Where the last character that is no white space ends, not before `from`.
pub open spec fn last_word(text: Seq<char>, from: int, n: int) -> int
    decreases n,
{
    if n > from && n > 0 && space_char(text[n - 1]) {
        last_word(text, from, n - 1)
    } else {
        n
    }
}

/// A text without the white space around it.
pub open spec fn trimmed(text: Seq<char>) -> Seq<char> {
    let from = first_word(text, 0);
    text.subrange(from, last_word(text, from, text.len() as int))
}

/// A text without the white space around it, in lower case.
pub open spec fn normalized(text: Seq<char>) -> Seq<char> {
    lowercase_of(trimmed(text))
}

fn trim(text: &str) -> (r: &str)
    ensures
        r@ == trimmed(text@),
{
    let n: usize = text.unicode_len();
    let mut from: usize = 0;
    while from < n && is_space(text.get_char(from))
        invariant
            n == text@.len(),
            from <= n,
            first_word(text@, 0) == first_word(text@, from as int),
        decreases n - from,
    {
        from = from + 1;
    }
    let mut to: usize = n;
    while to > from && is_space(text.get_char(to - 1))
        invariant
            n == text@.len(),
            from <= to <= n,
            last_word(text@, from as int, n as int) == last_word(text@, from as int, to as int),
        decreases to,
    {
        to = to - 1;
    }
    text.substring_char(from, to)
}

fn normalize(text: &str) -> (r: String)
    ensures
        r@ == normalized(text@),
{
    to_lowercase(trim(text))
}

#[derive(Clone, Copy, Debug, PartialEq, Eq, Structural)]
pub enum NamedKeyCode {
    Space,
    Shift,
    Control,
}

/// The named key that a text in lower case stands for.
pub open spec fn named_key(value: Seq<char>) -> Option<NamedKeyCode> {
    if value == "space"@ {
        Some(NamedKeyCode::Space)
    } else if value == "shift"@ || value == "left_shift"@ || value == "right_shift"@ {
        Some(NamedKeyCode::Shift)
    } else if value == "ctrl"@ || value == "control"@ || value == "left_ctrl"@ || value
        == "right_ctrl"@ {
        Some(NamedKeyCode::Control)
    } else {
        None
    }
}

impl NamedKeyCode {
    pub fn from_str(value: &str) -> (r: Option<NamedKeyCode>)
        ensures
            r == named_key(value@),
    {
        if same_text(value, "space") {
            Some(NamedKeyCode::Space)
        } else if same_text(value, "shift") || same_text(value, "left_shift") || same_text(
            value,
            "right_shift",
        ) {
            Some(NamedKeyCode::Shift)
        } else if same_text(value, "ctrl") || same_text(value, "control") || same_text(
            value,
            "left_ctrl",
        ) || same_text(value, "right_ctrl") {
            Some(NamedKeyCode::Control)
        } else {
            None
        }
    }
}

#[derive(Clone, Copy, Debug, PartialEq, Eq, Structural)]
pub enum InputAction {
    SpawnBurstSmall,
    SpawnBurstLarge,
    MeshToggle,
    FrustumLockToggle,
    FreeflyForward,
    FreeflyBackward,
    FreeflyLeft,
    FreeflyRight,
    FreeflyAscend,
    FreeflyDescend,
    FreeflyRollLeft,
    FreeflyRollRight,
    FreeflyBoost,
    ModifierCtrl,
}

/// How many actions there are.
pub const ACTION_COUNT: usize = 14;

pub open spec fn action_at(n: int) -> InputAction {
    if n == 0 {
        InputAction::SpawnBurstSmall
    } else if n == 1 {
        InputAction::SpawnBurstLarge
    } else if n == 2 {
        InputAction::MeshToggle
    } else if n == 3 {
        InputAction::FrustumLockToggle
    } else if n == 4 {
        InputAction::FreeflyForward
    } else if n == 5 {
        InputAction::FreeflyBackward
    } else if n == 6 {
        InputAction::FreeflyLeft
    } else if n == 7 {
        InputAction::FreeflyRight
    } else if n == 8 {
        InputAction::FreeflyAscend
    } else if n == 9 {
        InputAction::FreeflyDescend
    } else if n == 10 {
        InputAction::FreeflyRollLeft
    } else if n == 11 {
        InputAction::FreeflyRollRight
    } else if n == 12 {
        InputAction::FreeflyBoost
    } else {
        InputAction::ModifierCtrl
    }
}

fn nth_action(n: usize) -> (r: InputAction)
    ensures
        r == action_at(n as int),
{
    if n == 0 {
        InputAction::SpawnBurstSmall
    } else if n == 1 {
        InputAction::SpawnBurstLarge
    } else if n == 2 {
        InputAction::MeshToggle
    } else if n == 3 {
        InputAction::FrustumLockToggle
    } else if n == 4 {
        InputAction::FreeflyForward
    } else if n == 5 {
        InputAction::FreeflyBackward
    } else if n == 6 {
        InputAction::FreeflyLeft
    } else if n == 7 {
        InputAction::FreeflyRight
    } else if n == 8 {
        InputAction::FreeflyAscend
    } else if n == 9 {
        InputAction::FreeflyDescend
    } else if n == 10 {
        InputAction::FreeflyRollLeft
    } else if n == 11 {
        InputAction::FreeflyRollRight
    } else if n == 12 {
        InputAction::FreeflyBoost
    } else {
        InputAction::ModifierCtrl
    }
}

/// The action that a name in lower case stands for.
pub open spec fn action_of(value: Seq<char>) -> Option<InputAction> {
    if value == "spawn_burst_small"@ {
        Some(InputAction::SpawnBurstSmall)
    } else if value == "spawn_burst_large"@ {
        Some(InputAction::SpawnBurstLarge)
    } else if value == "mesh_toggle"@ {
        Some(InputAction::MeshToggle)
    } else if value == "frustum_lock_toggle"@ {
        Some(InputAction::FrustumLockToggle)
    } else if value == "freefly_forward"@ {
        Some(InputAction::FreeflyForward)
    } else if value == "freefly_backward"@ {
        Some(InputAction::FreeflyBackward)
    } else if value == "freefly_left"@ {
        Some(InputAction::FreeflyLeft)
    } else if value == "freefly_right"@ {
        Some(InputAction::FreeflyRight)
    } else if value == "freefly_ascend"@ {
        Some(InputAction::FreeflyAscend)
    } else if value == "freefly_descend"@ {
        Some(InputAction::FreeflyDescend)
    } else if value == "freefly_roll_left"@ {
        Some(InputAction::FreeflyRollLeft)
    } else if value == "freefly_roll_right"@ {
        Some(InputAction::FreeflyRollRight)
    } else if value == "freefly_boost"@ {
        Some(InputAction::FreeflyBoost)
    } else if value == "modifier_ctrl"@ {
        Some(InputAction::ModifierCtrl)
    } else {
        None
    }
}

impl InputAction {
    pub open spec fn number_of(self) -> int {
        match self {
            InputAction::SpawnBurstSmall => 0,
            InputAction::SpawnBurstLarge => 1,
            InputAction::MeshToggle => 2,
            InputAction::FrustumLockToggle => 3,
            InputAction::FreeflyForward => 4,
            InputAction::FreeflyBackward => 5,
            InputAction::FreeflyLeft => 6,
            InputAction::FreeflyRight => 7,
            InputAction::FreeflyAscend => 8,
            InputAction::FreeflyDescend => 9,
            InputAction::FreeflyRollLeft => 10,
            InputAction::FreeflyRollRight => 11,
            InputAction::FreeflyBoost => 12,
            InputAction::ModifierCtrl => 13,
        }
    }

    fn number(self) -> (r: usize)
        ensures
            r == self.number_of(),
            r < ACTION_COUNT,
            action_at(r as int) == self,
    {
        match self {
            InputAction::SpawnBurstSmall => 0,
            InputAction::SpawnBurstLarge => 1,
            InputAction::MeshToggle => 2,
            InputAction::FrustumLockToggle => 3,
            InputAction::FreeflyForward => 4,
            InputAction::FreeflyBackward => 5,
            InputAction::FreeflyLeft => 6,
            InputAction::FreeflyRight => 7,
            InputAction::FreeflyAscend => 8,
            InputAction::FreeflyDescend => 9,
            InputAction::FreeflyRollLeft => 10,
            InputAction::FreeflyRollRight => 11,
            InputAction::FreeflyBoost => 12,
            InputAction::ModifierCtrl => 13,
        }
    }

    pub fn from_str(value: &str) -> (r: Option<InputAction>)
        ensures
            r == action_of(value@),
    {
        if same_text(value, "spawn_burst_small") {
            Some(InputAction::SpawnBurstSmall)
        } else if same_text(value, "spawn_burst_large") {
            Some(InputAction::SpawnBurstLarge)
        } else if same_text(value, "mesh_toggle") {
            Some(InputAction::MeshToggle)
        } else if same_text(value, "frustum_lock_toggle") {
            Some(InputAction::FrustumLockToggle)
        } else if same_text(value, "freefly_forward") {
            Some(InputAction::FreeflyForward)
        } else if same_text(value, "freefly_backward") {
            Some(InputAction::FreeflyBackward)
        } else if same_text(value, "freefly_left") {
            Some(InputAction::FreeflyLeft)
        } else if same_text(value, "freefly_right") {
            Some(InputAction::FreeflyRight)
        } else if same_text(value, "freefly_ascend") {
            Some(InputAction::FreeflyAscend)
        } else if same_text(value, "freefly_descend") {
            Some(InputAction::FreeflyDescend)
        } else if same_text(value, "freefly_roll_left") {
            Some(InputAction::FreeflyRollLeft)
        } else if same_text(value, "freefly_roll_right") {
            Some(InputAction::FreeflyRollRight)
        } else if same_text(value, "freefly_boost") {
            Some(InputAction::FreeflyBoost)
        } else if same_text(value, "modifier_ctrl") {
            Some(InputAction::ModifierCtrl)
        } else {
            None
        }
    }
}

/// What a key is called.
pub enum KeyName {
    Character(Seq<char>),
    Named(NamedKeyCode),
}

/// A key that an action can be bound to.
#[derive(Debug)]
pub enum InputKeyBinding {
    Character(String),
    Named(NamedKeyCode),
}

/// A key as the window reports it.
#[derive(Debug)]
pub enum Key {
    Character(String),
    Named(NamedKeyCode),
    Other,
}

impl View for InputKeyBinding {
    type V = KeyName;

    open spec fn view(&self) -> KeyName {
        match self {
            InputKeyBinding::Character(text) => KeyName::Character(text@),
            InputKeyBinding::Named(named) => KeyName::Named(*named),
        }
    }
}

/// The key that a text in lower case stands for: a named key, or a single character.
pub open spec fn binding_of(text: Seq<char>) -> Option<KeyName> {
    if text.len() == 0 {
        None
    } else if named_key(text) is Some {
        Some(KeyName::Named(named_key(text)->0))
    } else if text.len() == 1 {
        Some(KeyName::Character(text))
    } else {
        None
    }
}

/// The name of a key that the window reports.
pub open spec fn reported(key: Key) -> Option<KeyName> {
    match key {
        Key::Character(text) => if text@.len() == 0 {
            None
        } else {
            Some(KeyName::Character(lowercase_of(text@)))
        },
        Key::Named(named) => Some(KeyName::Named(named)),
        Key::Other => None,
    }
}

pub open spec fn bound(r: Option<InputKeyBinding>) -> Option<KeyName> {
    match r {
        Some(binding) => Some(binding@),
        None => None,
    }
}

impl InputKeyBinding {
    pub fn character(ch: &str) -> (r: Self)
        ensures
            r@ == KeyName::Character(lowercase_of(ch@)),
    {
        InputKeyBinding::Character(to_lowercase(ch))
    }

    pub fn named(named: NamedKeyCode) -> (r: Self)
        ensures
            r@ == KeyName::Named(named),
    {
        InputKeyBinding::Named(named)
    }

    pub fn from_event_key(key: &Key) -> (r: Option<Self>)
        ensures
            bound(r) == reported(*key),
    {
        match key {
            Key::Character(text) => {
                if text.as_str().unicode_len() == 0 {
                    None
                } else {
                    Some(InputKeyBinding::Character(to_lowercase(text.as_str())))
                }
            },
            Key::Named(named) => Some(InputKeyBinding::Named(*named)),
            Key::Other => None,
        }
    }

    /// The key that a text stands for that is trimmed and in lower case.
    pub fn from_normalized(text: String) -> (r: Option<Self>)
        ensures
            bound(r) == binding_of(text@),
    {
        let n: usize = text.as_str().unicode_len();
        if n == 0 {
            return None;
        }
        match NamedKeyCode::from_str(text.as_str()) {
            Some(named) => Some(InputKeyBinding::Named(named)),
            None => if n == 1 {
                Some(InputKeyBinding::Character(text))
            } else {
                None
            },
        }
    }

    /// The key that a text of a settings file stands for.
    pub fn from_config_value(raw: &str) -> (r: Option<Self>)
        ensures
            bound(r) == binding_of(normalized(raw@)),
    {
        InputKeyBinding::from_normalized(normalize(raw))
    }

    fn same(&self, other: &Self) -> (r: bool)
        ensures
            r == (self@ == other@),
    {
        match (self, other) {
            (InputKeyBinding::Character(a), InputKeyBinding::Character(b)) => same_text(
                a.as_str(),
                b.as_str(),
            ),
            (InputKeyBinding::Named(a), InputKeyBinding::Named(b)) => *a == *b,
            _ => false,
        }
    }
}

pub open spec fn key_names(keys: Seq<InputKeyBinding>) -> Seq<KeyName> {
    Seq::new(keys.len(), |i: int| keys[i]@)
}

/// Which keys stand for which action.
pub struct InputBindings {
    pub keys: Vec<Vec<InputKeyBinding>>,
}

/// The keys of an action where no other ones are set.
pub open spec fn default_keys(action: InputAction) -> Seq<KeyName> {
    match action {
        InputAction::SpawnBurstSmall => seq![KeyName::Named(NamedKeyCode::Space)],
        InputAction::SpawnBurstLarge => seq![KeyName::Character(lowercase_of("b"@))],
        InputAction::MeshToggle => seq![KeyName::Character(lowercase_of("m"@))],
        InputAction::FrustumLockToggle => seq![KeyName::Character(lowercase_of("l"@))],
        InputAction::FreeflyForward => seq![KeyName::Character(lowercase_of("w"@))],
        InputAction::FreeflyBackward => seq![KeyName::Character(lowercase_of("s"@))],
        InputAction::FreeflyLeft => seq![KeyName::Character(lowercase_of("a"@))],
        InputAction::FreeflyRight => seq![KeyName::Character(lowercase_of("d"@))],
        InputAction::FreeflyAscend => seq![KeyName::Character(lowercase_of("e"@))],
        InputAction::FreeflyDescend => seq![KeyName::Character(lowercase_of("q"@))],
        InputAction::FreeflyRollLeft => seq![KeyName::Character(lowercase_of("z"@))],
        InputAction::FreeflyRollRight => seq![KeyName::Character(lowercase_of("c"@))],
        InputAction::FreeflyBoost => seq![KeyName::Named(NamedKeyCode::Shift)],
        InputAction::ModifierCtrl => seq![KeyName::Named(NamedKeyCode::Control)],
    }
}

fn make_default_keys(action: InputAction) -> (r: Vec<InputKeyBinding>)
    ensures
        key_names(r@) == default_keys(action),
{
    let key = match action {
        InputAction::SpawnBurstSmall => InputKeyBinding::named(NamedKeyCode::Space),
        InputAction::SpawnBurstLarge => InputKeyBinding::character("b"),
        InputAction::MeshToggle => InputKeyBinding::character("m"),
        InputAction::FrustumLockToggle => InputKeyBinding::character("l"),
        InputAction::FreeflyForward => InputKeyBinding::character("w"),
        InputAction::FreeflyBackward => InputKeyBinding::character("s"),
        InputAction::FreeflyLeft => InputKeyBinding::character("a"),
        InputAction::FreeflyRight => InputKeyBinding::character("d"),
        InputAction::FreeflyAscend => InputKeyBinding::character("e"),
        InputAction::FreeflyDescend => InputKeyBinding::character("q"),
        InputAction::FreeflyRollLeft => InputKeyBinding::character("z"),
        InputAction::FreeflyRollRight => InputKeyBinding::character("c"),
        InputAction::FreeflyBoost => InputKeyBinding::named(NamedKeyCode::Shift),
        InputAction::ModifierCtrl => InputKeyBinding::named(NamedKeyCode::Control),
    };
    let mut keys: Vec<InputKeyBinding> = Vec::new();
    keys.push(key);
    assert(key_names(keys@) =~= default_keys(action));
    keys
}

/// The keys of a settings file that can be read, among the first `n`.
pub open spec fn keys_read(raw: Seq<String>, n: int) -> Seq<KeyName>
    decreases n,
{
    if n <= 0 {
        Seq::empty()
    } else {
        match binding_of(normalized(raw[n - 1]@)) {
            Some(key) => keys_read(raw, n - 1).push(key),
            None => keys_read(raw, n - 1),
        }
    }
}

pub open spec fn unknown_key_text(origin: Seq<char>, key: Seq<char>, action: Seq<char>) -> Seq<
    char,
> {
    "[input] "@ + origin + (": unknown key '"@ + key + "' for action '"@) + (action
        + "', ignoring."@ + ""@)
}

pub open spec fn no_keys_text(origin: Seq<char>, action: Seq<char>) -> Seq<char> {
    "[input] "@ + origin + (": action '"@ + action + "' has no valid keys, keeping defaults."@)
}

pub open spec fn unknown_action_text(origin: Seq<char>, action: Seq<char>) -> Seq<char> {
    "[input] "@ + origin + (": unknown action '"@ + action + "', ignoring."@)
}

/// What is said of the keys that cannot be read, among the first `n`.
pub open spec fn keys_warned(
    origin: Seq<char>,
    action: Seq<char>,
    raw: Seq<String>,
    n: int,
) -> Seq<Seq<char>>
    decreases n,
{
    if n <= 0 {
        Seq::empty()
    } else {
        match binding_of(normalized(raw[n - 1]@)) {
            Some(_) => keys_warned(origin, action, raw, n - 1),
            None => keys_warned(origin, action, raw, n - 1).push(
                unknown_key_text(origin, raw[n - 1]@, action),
            ),
        }
    }
}

/// The bindings of the actions after the first `n` lines of a settings file: a line replaces the
/// keys of its action where it gives at least one that can be read.
pub open spec fn keys_after(config: Seq<(String, Vec<String>)>, n: int) -> Seq<Seq<KeyName>>
    decreases n,
{
    if n <= 0 {
        Seq::new(ACTION_COUNT as nat, |i: int| default_keys(action_at(i)))
    } else {
        let before = keys_after(config, n - 1);
        let (name, raw) = config[n - 1];
        match action_of(normalized(name@)) {
            Some(action) => {
                let keys = keys_read(raw@, raw@.len() as int);
                if keys.len() > 0 {
                    before.update(action.number_of(), keys)
                } else {
                    before
                }
            },
            None => before,
        }
    }
}

/// What is said of the first `n` lines of a settings file.
pub open spec fn warnings_after(origin: Seq<char>, config: Seq<(String, Vec<String>)>, n: int) -> Seq<
    Seq<char>,
>
    decreases n,
{
    if n <= 0 {
        Seq::empty()
    } else {
        let before = warnings_after(origin, config, n - 1);
        let (name, raw) = config[n - 1];
        match action_of(normalized(name@)) {
            Some(action) => {
                let told = before + keys_warned(origin, name@, raw@, raw@.len() as int);
                if keys_read(raw@, raw@.len() as int).len() == 0 {
                    told.push(no_keys_text(origin, name@))
                } else {
                    told
                }
            },
            None => before.push(unknown_action_text(origin, name@)),
        }
    }
}

pub open spec fn texts(list: Seq<String>) -> Seq<Seq<char>> {
    Seq::new(list.len(), |i: int| list[i]@)
}

/// At how many places a list of keys holds that one.
pub open spec fn times_listed(keys: Seq<InputKeyBinding>, key: KeyName) -> nat
    decreases keys.len(),
{
    if keys.len() == 0 {
        0
    } else {
        times_listed(keys.drop_last(), key) + (if keys.last()@ == key {
            1nat
        } else {
            0nat
        })
    }
}

fn read_keys(origin: &str, action: &str, raw: &Vec<String>, warnings: &mut Vec<String>) -> (r: Vec<
    InputKeyBinding,
>)
    ensures
        key_names(r@) == keys_read(raw@, raw@.len() as int),
        texts(final(warnings)@) == texts(old(warnings)@) + keys_warned(
            origin@,
            action@,
            raw@,
            raw@.len() as int,
        ),
{
    let mut keys: Vec<InputKeyBinding> = Vec::new();
    let mut i: usize = 0;
    assert(key_names(keys@) =~= Seq::<KeyName>::empty());
    assert(texts(warnings@) =~= texts(warnings@) + Seq::<Seq<char>>::empty());
    while i < raw.len()
        invariant
            i <= raw@.len(),
            key_names(keys@) == keys_read(raw@, i as int),
            texts(warnings@) == texts(old(warnings)@) + keys_warned(
                origin@,
                action@,
                raw@,
                i as int,
            ),
        decreases raw@.len() - i,
    {
        let ghost had = keys@;
        let ghost said = warnings@;
        match InputKeyBinding::from_config_value(raw[i].as_str()) {
            Some(key) => {
                keys.push(key);
                assert(key_names(keys@) =~= key_names(had).push(key@));
            },
            None => {
                let start = join3("[input] ", origin, "");
                let middle = join3(": unknown key '", raw[i].as_str(), "' for action '");
                let end = join3(action, "', ignoring.", "");
                let text = join3(start.as_str(), middle.as_str(), end.as_str());
                proof {
                    reveal_strlit("");
                    assert("[input] "@ + origin@ + ""@ =~= "[input] "@ + origin@);
                }
                warnings.push(text);
                assert(texts(warnings@) =~= texts(said).push(text@));
            },
        }
        i = i + 1;
    }
    keys
}

impl InputBindings {
    pub open spec fn wf(self) -> bool {
        self.keys@.len() == ACTION_COUNT
    }

    /// The keys of every action, in the order of their numbers.
    pub open spec fn table(self) -> Seq<Seq<KeyName>> {
        Seq::new(self.keys@.len(), |i: int| key_names(self.keys@[i]@))
    }

    /// The actions among the first `n` that a key stands for, each as often as it lists the key.
    pub open spec fn actions_of(self, key: KeyName, n: int) -> Seq<InputAction>
        decreases n,
    {
        if n <= 0 {
            Seq::empty()
        } else {
            self.actions_of(key, n - 1) + Seq::new(
                times_listed(self.keys@[n - 1]@, key),
                |i: int| action_at(n - 1),
            )
        }
    }

    fn replace(&mut self, action: InputAction, keys: Vec<InputKeyBinding>)
        requires
            old(self).wf(),
        ensures
            final(self).wf(),
            final(self).table() == old(self).table().update(action.number_of(), key_names(keys@)),
    {
        let n: usize = action.number();
        self.keys.set(n, keys);
        assert(self.table() =~= old(self).table().update(n as int, key_names(keys@)));
    }

    /// The bindings that a settings file gives, and what is said of its lines.
    pub fn from_config(config: &Vec<(String, Vec<String>)>, origin: &str) -> (r: (
        Self,
        Vec<String>,
    ))
        ensures
            r.0.wf(),
            r.0.table() == keys_after(config@, config@.len() as int),
            texts(r.1@) == warnings_after(origin@, config@, config@.len() as int),
    {
        let mut bindings = InputBindings::default();
        let mut warnings: Vec<String> = Vec::new();
        assert(texts(warnings@) =~= Seq::<Seq<char>>::empty());
        let mut i: usize = 0;
        while i < config.len()
            invariant
                i <= config@.len(),
                bindings.wf(),
                bindings.table() == keys_after(config@, i as int),
                texts(warnings@) == warnings_after(origin@, config@, i as int),
            decreases config@.len() - i,
        {
            let name = config[i].0.as_str();
            match InputAction::from_str(normalize(name).as_str()) {
                Some(action) => {
                    let keys = read_keys(origin, name, &config[i].1, &mut warnings);
                    assert(key_names(keys@).len() == keys@.len());
                    if keys.len() == 0 {
                        let ghost said = warnings@;
                        let start = join3("[input] ", origin, "");
                        let end = join3(
                            ": action '",
                            name,
                            "' has no valid keys, keeping defaults.",
                        );
                        let text = join3(start.as_str(), end.as_str(), "");
                        proof {
                            reveal_strlit("");
                            assert(text@ =~= no_keys_text(origin@, name@));
                        }
                        warnings.push(text);
                        assert(texts(warnings@) =~= texts(said).push(text@));
                    } else {
                        bindings.replace(action, keys);
                    }
                },
                None => {
                    let ghost said = warnings@;
                    let start = join3("[input] ", origin, "");
                    let end = join3(": unknown action '", name, "', ignoring.");
                    let text = join3(start.as_str(), end.as_str(), "");
                    proof {
                        reveal_strlit("");
                        assert(text@ =~= unknown_action_text(origin@, name@));
                    }
                    warnings.push(text);
                    assert(texts(warnings@) =~= texts(said).push(text@));
                },
            }
            i = i + 1;
        }
        (bindings, warnings)
    }

    /// The actions that a key stands for.
    pub fn actions_for_key(&self, key: &InputKeyBinding) -> (r: Vec<InputAction>)
        requires
            self.wf(),
        ensures
            r@ == self.actions_of(key@, ACTION_COUNT as int),
    {
        let mut out: Vec<InputAction> = Vec::new();
        let mut i: usize = 0;
        while i < ACTION_COUNT
            invariant
                self.wf(),
                i <= ACTION_COUNT,
                out@ == self.actions_of(key@, i as int),
            decreases ACTION_COUNT - i,
        {
            let ghost before = out@;
            let list = &self.keys[i];
            let mut k: usize = 0;
            assert(list@.take(0) =~= Seq::<InputKeyBinding>::empty());
            assert(out@ =~= before + Seq::new(
                times_listed(list@.take(0), key@),
                |j: int| action_at(i as int),
            ));
            while k < list.len()
                invariant
                    k <= list@.len(),
                    out@ == before + Seq::new(
                        times_listed(list@.take(k as int), key@),
                        |j: int| action_at(i as int),
                    ),
                decreases list@.len() - k,
            {
                proof {
                    assert(list@.take(k + 1).drop_last() =~= list@.take(k as int));
                    assert(list@.take(k + 1).last() == list@[k as int]);
                }
                if list[k].same(key) {
                    out.push(nth_action(i));
                }
                assert(out@ =~= before + Seq::new(
                    times_listed(list@.take(k + 1), key@),
                    |j: int| action_at(i as int),
                ));
                k = k + 1;
            }
            assert(list@.take(k as int) =~= list@);
            assert(out@ =~= self.actions_of(key@, i + 1));
            i = i + 1;
        }
        out
    }
}

/// How often an action comes among others.
pub open spec fn occurrences(actions: Seq<InputAction>, action: InputAction) -> nat
    decreases actions.len(),
{
    if actions.len() == 0 {
        0
    } else {
        occurrences(actions.drop_last(), action) + (if actions.last() == action {
            1nat
        } else {
            0nat
        })
    }
}

proof fn lemma_occurrences_add(a: Seq<InputAction>, b: Seq<InputAction>, action: InputAction)
    ensures
        occurrences(a + b, action) == occurrences(a, action) + occurrences(b, action),
    decreases b.len(),
{
    if b.len() == 0 {
        assert(a + b =~= a);
    } else {
        assert((a + b).drop_last() =~= a + b.drop_last());
        lemma_occurrences_add(a, b.drop_last(), action);
    }
}

proof fn lemma_occurrences_of_one(one: InputAction, n: nat, action: InputAction)
    ensures
        occurrences(Seq::new(n, |i: int| one), action) == (if one == action {
            n
        } else {
            0
        }),
    decreases n,
{
    let all = Seq::new(n, |i: int| one);
    if n > 0 {
        assert(all.drop_last() =~= Seq::new((n - 1) as nat, |i: int| one));
        lemma_occurrences_of_one(one, (n - 1) as nat, action);
    }
}

proof fn lemma_occurrences_until(bindings: InputBindings, key: KeyName, action: InputAction, n: int)
    requires
        0 <= n <= ACTION_COUNT,
    ensures
        occurrences(bindings.actions_of(key, n), action) == (if action.number_of() < n {
            times_listed(bindings.keys@[action.number_of()]@, key)
        } else {
            0
        }),
    decreases n,
{
    if n > 0 {
        lemma_occurrences_until(bindings, key, action, n - 1);
        let more = times_listed(bindings.keys@[n - 1]@, key);
        lemma_occurrences_add(
            bindings.actions_of(key, n - 1),
            Seq::new(more, |i: int| action_at(n - 1)),
            action,
        );
        lemma_occurrences_of_one(action_at(n - 1), more, action);
        assert(action_at(n - 1) == action <==> action.number_of() == n - 1);
    }
}

/// Nothing is lost where bindings are read the other way round: a key stands for an action as
/// often as the action lists the key, and two actions that share a key are both given.
pub proof fn law_actions_come_as_listed(
    bindings: InputBindings,
    key: KeyName,
    action: InputAction,
)
    requires
        bindings.wf(),
    ensures
        occurrences(bindings.actions_of(key, ACTION_COUNT as int), action) == times_listed(
            bindings.keys@[action.number_of()]@,
            key,
        ),
{
    lemma_occurrences_until(bindings, key, action, ACTION_COUNT as int);
}

impl Default for InputBindings {
    fn default() -> (r: Self)
        ensures
            r.wf(),
            r.table() == Seq::new(ACTION_COUNT as nat, |i: int| default_keys(action_at(i))),
    {
        let mut keys: Vec<Vec<InputKeyBinding>> = Vec::new();
        let mut i: usize = 0;
        while i < ACTION_COUNT
            invariant
                i <= ACTION_COUNT,
                keys@.len() == i,
                forall|j: int|
                    0 <= j < i ==> key_names((#[trigger] keys@[j])@) == default_keys(action_at(j)),
            decreases ACTION_COUNT - i,
        {
            keys.push(make_default_keys(nth_action(i)));
            i = i + 1;
        }
        let r = InputBindings { keys };
        assert(r.table() =~= Seq::new(ACTION_COUNT as nat, |i: int| default_keys(action_at(i))));
        r
    }
}

#[derive(Clone, Copy, Debug, PartialEq, Eq, Structural)]
pub enum MouseButton {
    Left,
    Right,
    Other,
}

pub enum InputEvent<S> {
    Key { key: Key, pressed: bool },
    MouseMove { dx: S, dy: S },
    Wheel { delta: S },
    MouseButton { button: MouseButton, pressed: bool },
    CursorPos { x: S, y: S },
    Other,
}

/// An action is done once where it is one of the first four.
pub open spec fn done_once(action: InputAction) -> bool {
    action.number_of() < 4
}

/// What the actions remember after the key of one went down or up: whether it is held, or, where
/// the action is done once, whether it went down.
pub open spec fn acted(seen: Seq<bool>, action: InputAction, pressed: bool) -> Seq<bool> {
    let n = action.number_of();
    seen.update(n, pressed || (done_once(action) && seen[n]))
}

pub open spec fn all_acted(
    seen: Seq<bool>,
    actions: Seq<InputAction>,
    n: int,
    pressed: bool,
) -> Seq<bool>
    decreases n,
{
    if n <= 0 {
        seen
    } else {
        acted(all_acted(seen, actions, n - 1, pressed), actions[n - 1], pressed)
    }
}

/// A key that goes down is seen by every action it stands for, and by no other one; one that goes
/// up is seen by those that are not done once.
pub proof fn law_keys_reach_their_actions(
    seen: Seq<bool>,
    actions: Seq<InputAction>,
    n: int,
    pressed: bool,
    action: InputAction,
)
    requires
        seen.len() == ACTION_COUNT,
        0 <= n <= actions.len(),
    ensures
        all_acted(seen, actions, n, pressed).len() == ACTION_COUNT,
        all_acted(seen, actions, n, pressed)[action.number_of()] == (if actions.take(n).contains(
            action,
        ) {
            pressed || (done_once(action) && seen[action.number_of()])
        } else {
            seen[action.number_of()]
        }),
    decreases n,
{
    if n > 0 {
        law_keys_reach_their_actions(seen, actions, n - 1, pressed, action);
        let last = actions[n - 1];
        let before = actions.take(n - 1);
        let all = actions.take(n);
        assert(all =~= before.push(last));
        assert(last.number_of() == action.number_of() ==> last == action);
        if before.contains(action) {
            let i = choose|i: int| 0 <= i < before.len() && before[i] == action;
            assert(all[i] == action);
        }
        if last == action {
            assert(all[n - 1] == action);
        } else if all.contains(action) {
            let i = choose|i: int| 0 <= i < all.len() && all[i] == action;
            assert(before[i] == action);
        }
    } else {
        assert(actions.take(n) =~= Seq::<InputAction>::empty());
    }
}

/// What is held down, and what was pressed since it was last asked for. `seen` says for every
/// action, by its number, what it remembers of its key.
#[derive(Clone, Copy)]
pub struct InputState<S> {
    pub seen: [bool; 14],
    pub cursor_pos: Option<(S, S)>,
    pub left_pressed: bool,
    pub left_clicked: bool,
    pub right_pressed: bool,
}

impl<S> InputState<S> {
    pub open spec fn sees(self, action: InputAction) -> bool {
        self.seen@[action.number_of()]
    }

    fn seen(&self, action: InputAction) -> (r: bool)
        ensures
            r == self.sees(action),
    {
        self.seen[action.number()]
    }

    /// The same but for what the actions remember.
    pub open spec fn same_mouse(self, other: Self) -> bool {
        &&& self.cursor_pos == other.cursor_pos
        &&& self.left_pressed == other.left_pressed
        &&& self.left_clicked == other.left_clicked
        &&& self.right_pressed == other.right_pressed
    }

    fn set_seen(&mut self, action: InputAction, value: bool)
        ensures
            final(self).same_mouse(*old(self)),
            final(self).seen@ == old(self).seen@.update(action.number_of(), value),
    {
        let n: usize = action.number();
        self.seen[n] = value;
    }

    fn update_action_state(&mut self, action: InputAction, pressed: bool)
        ensures
            final(self).same_mouse(*old(self)),
            final(self).seen@ == acted(old(self).seen@, action, pressed),
    {
        let n: usize = action.number();
        let value = pressed || (n < 4 && self.seen[n]);
        self.set_seen(action, value);
    }
}

pub struct Input<S> {
    pub bindings: InputBindings,
    pub mouse_delta: (S, S),
    pub wheel: S,
    pub events: Vec<InputEvent<S>>,
    pub state: InputState<S>,
}

impl<S: Scalar> Input<S> {
    pub open spec fn wf(self) -> bool {
        self.bindings.wf()
    }

    /// The same but for what is held and pressed.
    pub open spec fn same_motion(self, other: Self) -> bool {
        &&& self.bindings == other.bindings
        &&& self.mouse_delta == other.mouse_delta
        &&& self.wheel == other.wheel
        &&& self.events == other.events
    }

    /// What the actions remember after an event.
    pub open spec fn seen_after(self, ev: InputEvent<S>) -> Seq<bool> {
        match ev {
            InputEvent::Key { key, pressed } => match reported(key) {
                Some(name) => {
                    let actions = self.bindings.actions_of(name, ACTION_COUNT as int);
                    all_acted(self.state.seen@, actions, actions.len() as int, pressed)
                },
                None => self.state.seen@,
            },
            _ => self.state.seen@,
        }
    }

    pub open spec fn at_rest(self) -> bool {
        &&& self.wf()
        &&& self.mouse_delta == (S::zero_spec(), S::zero_spec())
        &&& self.wheel == S::zero_spec()
        &&& self.events@ == Seq::<InputEvent<S>>::empty()
        &&& forall|a: InputAction| !#[trigger] self.state.sees(a)
        &&& self.state.cursor_pos is None
        &&& !self.state.left_pressed && !self.state.left_clicked && !self.state.right_pressed
    }

    pub fn with_bindings(bindings: InputBindings) -> (r: Self)
        requires
            bindings.wf(),
        ensures
            r.at_rest(),
            r.bindings == bindings,
    {
        Input {
            bindings,
            mouse_delta: (S::zero(), S::zero()),
            wheel: S::zero(),
            events: Vec::new(),
            state: InputState {
                seen: [false;14],
                cursor_pos: None,
                left_pressed: false,
                left_clicked: false,
                right_pressed: false,
            },
        }
    }

    pub fn new() -> (r: Self)
        ensures
            r.at_rest(),
            r.bindings.table() == Seq::new(
                ACTION_COUNT as nat,
                |i: int| default_keys(action_at(i)),
            ),
    {
        Input::with_bindings(InputBindings::default())
    }

    fn apply_key_binding(&mut self, key: &Key, pressed: bool)
        requires
            old(self).wf(),
        ensures
            final(self).same_motion(*old(self)),
            final(self).state.same_mouse(old(self).state),
            final(self).state.seen@ == (match reported(*key) {
                Some(name) => {
                    let actions = old(self).bindings.actions_of(name, ACTION_COUNT as int);
                    all_acted(old(self).state.seen@, actions, actions.len() as int, pressed)
                },
                None => old(self).state.seen@,
            }),
    {
        match InputKeyBinding::from_event_key(key) {
            Some(binding) => {
                let actions = self.bindings.actions_for_key(&binding);
                let mut i: usize = 0;
                while i < actions.len()
                    invariant
                        i <= actions@.len(),
                        self.same_motion(*old(self)),
                        self.state.same_mouse(old(self).state),
                        self.state.seen@ == all_acted(
                            old(self).state.seen@,
                            actions@,
                            i as int,
                            pressed,
                        ),
                    decreases actions@.len() - i,
                {
                    self.state.update_action_state(actions[i], pressed);
                    i = i + 1;
                }
            },
            None => {},
        }
    }

    /// Takes in what the window reports.
    pub fn push(&mut self, ev: InputEvent<S>)
        requires
            old(self).wf(),
        ensures
            final(self).wf(),
            final(self).bindings == old(self).bindings,
            final(self).events@ == old(self).events@.push(ev),
            final(self).mouse_delta == (match ev {
                InputEvent::MouseMove { dx, dy } => (
                    old(self).mouse_delta.0.plus_spec(dx),
                    old(self).mouse_delta.1.plus_spec(dy),
                ),
                _ => old(self).mouse_delta,
            }),
            final(self).wheel == (match ev {
                InputEvent::Wheel { delta } => old(self).wheel.plus_spec(delta),
                _ => old(self).wheel,
            }),
            final(self).state.seen@ == old(self).seen_after(ev),
            final(self).state.cursor_pos == (match ev {
                InputEvent::CursorPos { x, y } => Some((x, y)),
                _ => old(self).state.cursor_pos,
            }),
            final(self).state.left_pressed == (match ev {
                InputEvent::MouseButton { button: MouseButton::Left, pressed } => pressed,
                _ => old(self).state.left_pressed,
            }),
            final(self).state.left_clicked == (match ev {
                InputEvent::MouseButton { button: MouseButton::Left, pressed } => pressed || old(self).state.left_clicked,
                _ => old(self).state.left_clicked,
            }),
            final(self).state.right_pressed == (match ev {
                InputEvent::MouseButton { button: MouseButton::Right, pressed } => pressed,
                _ => old(self).state.right_pressed,
            }),
    {
        match &ev {
            InputEvent::Key { key, pressed } => self.apply_key_binding(key, *pressed),
            InputEvent::MouseMove { dx, dy } => {
                self.mouse_delta = (self.mouse_delta.0.plus(*dx), self.mouse_delta.1.plus(*dy));
            },
            InputEvent::Wheel { delta } => {
                self.wheel = self.wheel.plus(*delta);
            },
            InputEvent::MouseButton { button, pressed } => match *button {
                MouseButton::Left => {
                    if *pressed {
                        self.state.left_clicked = true;
                    }
                    self.state.left_pressed = *pressed;
                },
                MouseButton::Right => {
                    self.state.right_pressed = *pressed;
                },
                MouseButton::Other => {},
            },
            InputEvent::CursorPos { x, y } => {
                self.state.cursor_pos = Some((*x, *y));
            },
            InputEvent::Other => {},
        }
        self.events.push(ev);
    }

    /// Forgets what belongs to one frame only.
    pub fn clear_frame(&mut self)
        ensures
            final(self).bindings == old(self).bindings,
            final(self).events@ == Seq::<InputEvent<S>>::empty(),
            final(self).mouse_delta == (S::zero_spec(), S::zero_spec()),
            final(self).wheel == S::zero_spec(),
            final(self).state.cursor_pos == old(self).state.cursor_pos,
            final(self).state.left_pressed == old(self).state.left_pressed,
            final(self).state.right_pressed == old(self).state.right_pressed,
            !final(self).state.left_clicked,
            final(self).state.seen@ == old(self).state.seen@.update(
                InputAction::MeshToggle.number_of(),
                false,
            ).update(InputAction::FrustumLockToggle.number_of(), false),
    {
        self.events.clear();
        self.mouse_delta = (S::zero(), S::zero());
        self.wheel = S::zero();
        self.state.left_clicked = false;
        self.state.set_seen(InputAction::MeshToggle, false);
        self.state.set_seen(InputAction::FrustumLockToggle, false);
    }

    /// How far the wheel was turned, which is then taken back; nothing where it was not.
    pub fn consume_wheel_delta(&mut self) -> (r: Option<S>)
        ensures
            final(self).bindings == old(self).bindings,
            final(self).events == old(self).events,
            final(self).mouse_delta == old(self).mouse_delta,
            final(self).state == old(self).state,
            if S::zero_spec().lt_spec(old(self).wheel.magnitude_spec()) {
                r == Some(old(self).wheel) && final(self).wheel == S::zero_spec()
            } else {
                r is None && final(self).wheel == old(self).wheel
            },
    {
        if S::zero().lt(self.wheel.magnitude()) {
            let d = self.wheel;
            self.wheel = S::zero();
            Some(d)
        } else {
            None
        }
    }

    /// Whether an action was asked for, which is then forgotten.
    fn take(&mut self, action: InputAction) -> (r: bool)
        ensures
            r == old(self).state.sees(action),
            final(self).same_motion(*old(self)),
            final(self).state.same_mouse(old(self).state),
            final(self).state.seen@ == old(self).state.seen@.update(action.number_of(), false),
    {
        let was = self.state.seen(action);
        self.state.set_seen(action, false);
        was
    }

    pub fn take_space_pressed(&mut self) -> (r: bool)
        ensures
            r == old(self).state.sees(InputAction::SpawnBurstSmall),
            final(self).same_motion(*old(self)),
            final(self).state.same_mouse(old(self).state),
            final(self).state.seen@ == old(self).state.seen@.update(
                InputAction::SpawnBurstSmall.number_of(),
                false,
            ),
    {
        self.take(InputAction::SpawnBurstSmall)
    }

    pub fn take_b_pressed(&mut self) -> (r: bool)
        ensures
            r == old(self).state.sees(InputAction::SpawnBurstLarge),
            final(self).same_motion(*old(self)),
            final(self).state.same_mouse(old(self).state),
            final(self).state.seen@ == old(self).state.seen@.update(
                InputAction::SpawnBurstLarge.number_of(),
                false,
            ),
    {
        self.take(InputAction::SpawnBurstLarge)
    }

    pub fn take_mesh_toggle(&mut self) -> (r: bool)
        ensures
            r == old(self).state.sees(InputAction::MeshToggle),
            final(self).same_motion(*old(self)),
            final(self).state.same_mouse(old(self).state),
            final(self).state.seen@ == old(self).state.seen@.update(
                InputAction::MeshToggle.number_of(),
                false,
            ),
    {
        self.take(InputAction::MeshToggle)
    }

    pub fn take_frustum_lock_toggle(&mut self) -> (r: bool)
        ensures
            r == old(self).state.sees(InputAction::FrustumLockToggle),
            final(self).same_motion(*old(self)),
            final(self).state.same_mouse(old(self).state),
            final(self).state.seen@ == old(self).state.seen@.update(
                InputAction::FrustumLockToggle.number_of(),
                false,
            ),
    {
        self.take(InputAction::FrustumLockToggle)
    }

    pub fn take_left_click(&mut self) -> (r: bool)
        ensures
            r == old(self).state.left_clicked,
            final(self).same_motion(*old(self)),
            final(self).state == (InputState { left_clicked: false, ..old(self).state }),
    {
        let was = self.state.left_clicked;
        self.state.left_clicked = false;
        was
    }

    pub fn right_held(&self) -> (r: bool)
        ensures
            r == self.state.right_pressed,
    {
        self.state.right_pressed
    }

    pub fn left_held(&self) -> (r: bool)
        ensures
            r == self.state.left_pressed,
    {
        self.state.left_pressed
    }

    pub fn freefly_forward(&self) -> (r: bool)
        ensures
            r == self.state.sees(InputAction::FreeflyForward),
    {
        self.state.seen(InputAction::FreeflyForward)
    }

    pub fn freefly_backward(&self) -> (r: bool)
        ensures
            r == self.state.sees(InputAction::FreeflyBackward),
    {
        self.state.seen(InputAction::FreeflyBackward)
    }

    pub fn freefly_left(&self) -> (r: bool)
        ensures
            r == self.state.sees(InputAction::FreeflyLeft),
    {
        self.state.seen(InputAction::FreeflyLeft)
    }

    pub fn freefly_right(&self) -> (r: bool)
        ensures
            r == self.state.sees(InputAction::FreeflyRight),
    {
        self.state.seen(InputAction::FreeflyRight)
    }

    pub fn freefly_ascend(&self) -> (r: bool)
        ensures
            r == self.state.sees(InputAction::FreeflyAscend),
    {
        self.state.seen(InputAction::FreeflyAscend)
    }

    pub fn freefly_descend(&self) -> (r: bool)
        ensures
            r == self.state.sees(InputAction::FreeflyDescend),
    {
        self.state.seen(InputAction::FreeflyDescend)
    }

    pub fn freefly_boost(&self) -> (r: bool)
        ensures
            r == self.state.sees(InputAction::FreeflyBoost),
    {
        self.state.seen(InputAction::FreeflyBoost)
    }

    pub fn shift_held(&self) -> (r: bool)
        ensures
            r == self.state.sees(InputAction::FreeflyBoost),
    {
        self.state.seen(InputAction::FreeflyBoost)
    }

    pub fn ctrl_held(&self) -> (r: bool)
        ensures
            r == self.state.sees(InputAction::ModifierCtrl),
    {
        self.state.seen(InputAction::ModifierCtrl)
    }

    pub fn freefly_roll_left(&self) -> (r: bool)
        ensures
            r == self.state.sees(InputAction::FreeflyRollLeft),
    {
        self.state.seen(InputAction::FreeflyRollLeft)
    }

    pub fn freefly_roll_right(&self) -> (r: bool)
        ensures
            r == self.state.sees(InputAction::FreeflyRollRight),
    {
        self.state.seen(InputAction::FreeflyRollRight)
    }

    pub fn cursor_position(&self) -> (r: Option<(S, S)>)
        ensures
            r == self.state.cursor_pos,
    {
        self.state.cursor_pos
    }
}

} // verus!
