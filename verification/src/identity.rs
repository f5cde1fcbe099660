//! Names that were read from chat, and the people behind them.
use vstd::prelude::*;
use crate::config::checks::error_of;
use crate::config::settings::blank;
use crate::config::settings::is_blank;
use crate::scan::occurs_at;
use crate::scan::stands_at;
use crate::text::cat2;
use crate::text::cat3;
use crate::text::decimal;
use crate::text::format_usize;
use crate::text::from_chars;
use crate::text::owned;
use crate::text::str_equal;
use crate::text::to_chars;
use crate::text::trim;
use crate::text::trimmed;

verus! {

/// What somebody may do, from least to most.
#[derive(Clone, Copy, Debug, PartialEq, Eq, PartialOrd, Ord, Structural)]
pub enum IdentityRole {
    Friend,
    Admin,
    Owner,
}

/// How much a role may do.
pub open spec fn rank(role: IdentityRole) -> int {
    match role {
        IdentityRole::Friend => 0,
        IdentityRole::Admin => 1,
        IdentityRole::Owner => 2,
    }
}

impl IdentityRole {
    /// Whether this role may do all that another may.
    pub fn covers(self, required: IdentityRole) -> (r: bool)
        ensures
            r == (rank(self) >= rank(required)),
    {
        match required {
            IdentityRole::Friend => true,
            IdentityRole::Admin => self != IdentityRole::Friend,
            IdentityRole::Owner => self == IdentityRole::Owner,
        }
    }
}

/// A name that is read from chat, with the person behind it: a number that stays
/// the same, a role, and a note on who it is.
#[derive(Clone, Debug, PartialEq, Eq)]
pub struct IdentityMapping {
    pub nickname: String,
    pub id: u128,
    pub role: IdentityRole,
    pub note: String,
}

/// The names that are known.
#[derive(Clone, Debug, PartialEq, Eq)]
pub struct IdentityConfig {
    pub mappings: Vec<IdentityMapping>,
}

impl Default for IdentityConfig {
    fn default() -> (r: Self)
        ensures
            r.mappings@.len() == 0,
    {
        IdentityConfig { mappings: Vec::new() }
    }
}

// ---------------------------------------------------------------------------
// How a number is written
// ---------------------------------------------------------------------------
/// A digit to the base of sixteen.
pub open spec fn hex_char(d: int) -> char {
    if d < 10 {
        ('0' as int + d) as char
    } else {
        ('a' as int + d - 10) as char
    }
}

/// The last digits of a number to the base of sixteen.
pub open spec fn hex_digits(n: int, count: nat) -> Seq<char>
    decreases count,
{
    if count == 0 {
        Seq::empty()
    } else {
        hex_digits(n / 16, (count - 1) as nat).push(hex_char(n % 16))
    }
}

/// The digits of an identifier, in groups.
pub open spec fn hyphenated(id: u128) -> Seq<char> {
    let digits = hex_digits(id as int, 32);
    digits.subrange(0, 8) + seq!['-'] + digits.subrange(8, 12) + seq!['-'] + digits.subrange(12, 16)
        + seq!['-'] + digits.subrange(16, 20) + seq!['-'] + digits.subrange(20, 32)
}

/// How `uuid` writes the identifier that `Uuid::from_u128` makes of a number:
/// the 32 digits of the number to the base of sixteen, in lower case, in groups
/// of eight, four, four, four and twelve with a hyphen between each two.
#[verifier::external_body]
fn uuid_text(id: u128) -> (r: String)
    ensures
        r@ == hyphenated(id),
{
    uuid::Uuid::from_u128(id).to_string()
}

// ---------------------------------------------------------------------------
// What is wrong with the names
// ---------------------------------------------------------------------------
/// Whether one of the first `n` names is written so.
pub open spec fn named_before(mappings: Seq<IdentityMapping>, n: int, nickname: Seq<char>) -> bool {
    exists|j: int| 0 <= j < n && (#[trigger] mappings[j]).nickname@ == nickname
}

/// Whether one of the first `n` names has that number.
pub open spec fn numbered_before(mappings: Seq<IdentityMapping>, n: int, id: u128) -> bool {
    exists|j: int| 0 <= j < n && (#[trigger] mappings[j]).id == id
}

/// What is wrong with a name, among those before it.
pub open spec fn mapping_error(mappings: Seq<IdentityMapping>, i: int) -> Option<Seq<char>> {
    let mapping = mappings[i];
    if blank(mapping.nickname@) {
        Some("identity.mappings 存在空昵称"@)
    } else if named_before(mappings, i, mapping.nickname@) {
        Some("identity.mappings 昵称重复: "@ + mapping.nickname@)
    } else if numbered_before(mappings, i, mapping.id) {
        Some("identity.mappings UUID 重复: "@ + hyphenated(mapping.id))
    } else {
        None
    }
}

/// The first that is wrong with the names from one on.
pub open spec fn mappings_error(mappings: Seq<IdentityMapping>, i: int) -> Option<Seq<char>>
    decreases mappings.len() - i,
{
    if i >= mappings.len() {
        None
    } else if mapping_error(mappings, i) is Some {
        mapping_error(mappings, i)
    } else {
        mappings_error(mappings, i + 1)
    }
}

/// How many owners there are.
pub open spec fn owners(mappings: Seq<IdentityMapping>) -> nat
    decreases mappings.len(),
{
    if mappings.len() == 0 {
        0
    } else if mappings.last().role == IdentityRole::Owner {
        owners(mappings.drop_last()) + 1
    } else {
        owners(mappings.drop_last())
    }
}

/// The first that is wrong with the names.
pub open spec fn identity_error(mappings: Seq<IdentityMapping>) -> Option<Seq<char>> {
    if mappings_error(mappings, 0) is Some {
        mappings_error(mappings, 0)
    } else if owners(mappings) > 1 {
        Some(
            "identity.mappings 最多允许一位主人（owner），当前 "@ + decimal(owners(mappings))
                + " 位"@,
        )
    } else {
        None
    }
}

impl IdentityConfig {
    /// Every name is written and numbered once, and there is at most one owner.
    pub fn validate(&self) -> (r: Result<(), String>)
        ensures
            error_of(r) == identity_error(self.mappings@),
    {
        let mut count: usize = 0;
        let mut i: usize = 0;
        assert(self.mappings@.take(0) =~= Seq::empty());
        while i < self.mappings.len()
            invariant
                i <= self.mappings@.len(),
                count <= i,
                count == owners(self.mappings@.take(i as int)),
                mappings_error(self.mappings@, 0) == mappings_error(self.mappings@, i as int),
            decreases self.mappings@.len() - i,
        {
            let mapping = &self.mappings[i];
            if is_blank(mapping.nickname.as_str()) {
                return Err(owned("identity.mappings 存在空昵称"));
            }
            if self.is_named_before(i, mapping.nickname.as_str()) {
                return Err(cat2("identity.mappings 昵称重复: ", mapping.nickname.as_str()));
            }
            if self.is_numbered_before(i, mapping.id) {
                return Err(cat2("identity.mappings UUID 重复: ", uuid_text(mapping.id).as_str()));
            }
            assert(self.mappings@.take(i + 1).drop_last() =~= self.mappings@.take(i as int));
            if mapping.role == IdentityRole::Owner {
                count = count + 1;
            }
            i = i + 1;
        }
        assert(self.mappings@.take(i as int) =~= self.mappings@);
        if count > 1 {
            return Err(
                cat3(
                    "identity.mappings 最多允许一位主人（owner），当前 ",
                    format_usize(count).as_str(),
                    " 位",
                ),
            );
        }
        Ok(())
    }

    /// Whether one of the first `n` names is written so.
    fn is_named_before(&self, n: usize, nickname: &str) -> (r: bool)
        requires
            n <= self.mappings@.len(),
        ensures
            r == named_before(self.mappings@, n as int, nickname@),
    {
        let mut j: usize = 0;
        while j < n
            invariant
                j <= n <= self.mappings@.len(),
                !named_before(self.mappings@, j as int, nickname@),
            decreases n - j,
        {
            if str_equal(self.mappings[j].nickname.as_str(), nickname) {
                return true;
            }
            j = j + 1;
        }
        false
    }

    /// Whether one of the first `n` names has that number.
    fn is_numbered_before(&self, n: usize, id: u128) -> (r: bool)
        requires
            n <= self.mappings@.len(),
        ensures
            r == numbered_before(self.mappings@, n as int, id),
    {
        let mut j: usize = 0;
        while j < n
            invariant
                j <= n <= self.mappings@.len(),
                !numbered_before(self.mappings@, j as int, id),
            decreases n - j,
        {
            if self.mappings[j].id == id {
                return true;
            }
            j = j + 1;
        }
        false
    }
}

// ---------------------------------------------------------------------------
// Who is behind a name
// ---------------------------------------------------------------------------
/// Where a name is first among those from one on.
pub open spec fn found_from(mappings: Seq<IdentityMapping>, nickname: Seq<char>, i: int) -> Option<int>
    decreases mappings.len() - i,
{
    if i >= mappings.len() {
        None
    } else if mappings[i].nickname@ == nickname {
        Some(i)
    } else {
        found_from(mappings, nickname, i + 1)
    }
}

/// Where a name is first.
pub open spec fn found(mappings: Seq<IdentityMapping>, nickname: Seq<char>) -> Option<int> {
    found_from(mappings, nickname, 0)
}

/// How a person is shown: by the note on them, or by their name.
pub open spec fn shown(nickname: Seq<char>, note: Seq<char>) -> Seq<char> {
    if blank(note) {
        nickname
    } else {
        trimmed(note)
    }
}

/// The person behind a name.
#[derive(Clone, Debug, PartialEq, Eq)]
pub struct ResolvedIdentity {
    pub id: u128,
    pub role: IdentityRole,
    pub nickname: String,
    pub note: String,
}

impl ResolvedIdentity {
    /// How the person is shown.
    pub fn display_name(&self) -> (r: String)
        ensures
            r@ == shown(self.nickname@, self.note@),
    {
        if is_blank(self.note.as_str()) {
            self.nickname.clone()
        } else {
            trim(self.note.as_str())
        }
    }
}

/// The role of a name.
pub open spec fn role_named(mappings: Seq<IdentityMapping>, nickname: Seq<char>) -> Option<
    IdentityRole,
> {
    match found(mappings, nickname) {
        Some(i) => Some(mappings[i].role),
        None => None,
    }
}

/// Whether a name may do all that a role may.
pub open spec fn at_least(
    mappings: Seq<IdentityMapping>,
    nickname: Seq<char>,
    required: IdentityRole,
) -> bool {
    match role_named(mappings, nickname) {
        Some(role) => rank(role) >= rank(required),
        None => false,
    }
}

/// How a name is shown.
pub open spec fn display_of(mappings: Seq<IdentityMapping>, nickname: Seq<char>) -> Seq<char> {
    match found(mappings, nickname) {
        Some(i) => shown(nickname, mappings[i].note@),
        None => nickname,
    }
}

// ---------------------------------------------------------------------------
// Names in a text
// ---------------------------------------------------------------------------
/// Whether a name in a text is shown by its note, and stands at the start.
pub open spec fn stands_for(mapping: IdentityMapping, text: Seq<char>) -> bool {
    &&& mapping.nickname@.len() > 0
    &&& !blank(mapping.note@)
    &&& occurs_at(text, mapping.nickname@, 0)
}

/// Which of the first `n` names stands at the start of a text: the longest, and
/// of equal ones the first.
pub open spec fn longest_before(mappings: Seq<IdentityMapping>, text: Seq<char>, n: int) -> Option<int>
    decreases n,
{
    if n <= 0 {
        None
    } else {
        let last = n - 1;
        match longest_before(mappings, text, last) {
            Some(k) => if stands_for(mappings[last], text) && mappings[last].nickname@.len()
                > mappings[k].nickname@.len() {
                Some(last)
            } else {
                Some(k)
            },
            None => if stands_for(mappings[last], text) {
                Some(last)
            } else {
                None
            },
        }
    }
}

/// Which name stands at the start of a text.
pub open spec fn longest(mappings: Seq<IdentityMapping>, text: Seq<char>) -> Option<int> {
    longest_before(mappings, text, mappings.len() as int)
}

/// A name that stands at the start of a text is one of them.
pub proof fn lemma_longest(mappings: Seq<IdentityMapping>, text: Seq<char>, n: int)
    requires
        0 <= n <= mappings.len(),
    ensures
        match longest_before(mappings, text, n) {
            Some(k) => 0 <= k < n && stands_for(mappings[k], text) && forall|j: int|
                0 <= j < n && #[trigger] stands_for(mappings[j], text)
                    ==> mappings[j].nickname@.len() < mappings[k].nickname@.len() || (
                mappings[j].nickname@.len() == mappings[k].nickname@.len() && k <= j),
            None => forall|j: int| 0 <= j < n ==> !#[trigger] stands_for(mappings[j], text),
        },
    decreases n,
{
    if n > 0 {
        lemma_longest(mappings, text, n - 1);
    }
}

/// A text in which every name is shown by its note: at each place the longest
/// name that stands there.
pub open spec fn shown_text(mappings: Seq<IdentityMapping>, text: Seq<char>) -> Seq<char>
    decreases text.len(),
{
    if text.len() == 0 {
        Seq::empty()
    } else {
        match longest(mappings, text) {
            Some(k) => {
                proof {
                    lemma_longest(mappings, text, mappings.len() as int);
                }
                trimmed(mappings[k].note@) + shown_text(
                    mappings,
                    text.skip(mappings[k].nickname@.len() as int),
                )
            },
            None => seq![text[0]] + shown_text(mappings, text.skip(1)),
        }
    }
}

/// The names that are known, to be asked.
#[derive(Clone, Debug, PartialEq, Eq)]
pub struct IdentityAccess {
    pub config: IdentityConfig,
}

impl Default for IdentityAccess {
    fn default() -> (r: Self)
        ensures
            r.config.mappings@.len() == 0,
    {
        IdentityAccess { config: IdentityConfig::default() }
    }
}

impl IdentityAccess {
    /// Access to some names.
    pub fn new(config: IdentityConfig) -> (r: Self)
        ensures
            r.config == config,
    {
        IdentityAccess { config }
    }

    /// Other names in place of those that are known.
    pub fn replace(&mut self, config: IdentityConfig)
        ensures
            final(self).config == config,
    {
        self.config = config;
    }

    /// Where a name is first.
    fn position(&self, nickname: &str) -> (r: Option<usize>)
        ensures
            match r {
                Some(i) => found(self.config.mappings@, nickname@) == Some(i as int) && i
                    < self.config.mappings@.len() && self.config.mappings@[i as int].nickname@
                    == nickname@,
                None => found(self.config.mappings@, nickname@) is None,
            },
    {
        let mut i: usize = 0;
        while i < self.config.mappings.len()
            invariant
                i <= self.config.mappings@.len(),
                found(self.config.mappings@, nickname@) == found_from(
                    self.config.mappings@,
                    nickname@,
                    i as int,
                ),
            decreases self.config.mappings@.len() - i,
        {
            if str_equal(self.config.mappings[i].nickname.as_str(), nickname) {
                return Some(i);
            }
            i = i + 1;
        }
        None
    }

    /// The person behind a name.
    pub fn resolve(&self, nickname: &str) -> (r: Option<ResolvedIdentity>)
        ensures
            match r {
                Some(person) => {
                    &&& found(self.config.mappings@, nickname@) is Some
                    &&& {
                        let mapping = self.config.mappings@[found(
                            self.config.mappings@,
                            nickname@,
                        )->0];
                        &&& person.id == mapping.id
                        &&& person.role == mapping.role
                        &&& person.nickname@ == nickname@
                        &&& person.note@ == mapping.note@
                    }
                },
                None => found(self.config.mappings@, nickname@) is None,
            },
    {
        match self.position(nickname) {
            Some(i) => {
                let mapping = &self.config.mappings[i];
                Some(
                    ResolvedIdentity {
                        id: mapping.id,
                        role: mapping.role,
                        nickname: mapping.nickname.clone(),
                        note: mapping.note.clone(),
                    },
                )
            },
            None => None,
        }
    }

    /// How a name is shown.
    pub fn display_name(&self, nickname: &str) -> (r: String)
        ensures
            r@ == display_of(self.config.mappings@, nickname@),
    {
        match self.resolve(nickname) {
            Some(person) => person.display_name(),
            None => owned(nickname),
        }
    }

    /// The name by which a person is found in the game.
    pub fn canonical_name(&self, nickname: &str) -> (r: String)
        ensures
            r@ == nickname@,
    {
        match self.resolve(nickname) {
            Some(person) => person.nickname,
            None => owned(nickname),
        }
    }

    /// Which name stands at the start of a text.
    fn longest_at(&self, chars: &Vec<char>, start: usize) -> (r: Option<usize>)
        requires
            start <= chars@.len(),
        ensures
            match r {
                Some(k) => longest(self.config.mappings@, chars@.skip(start as int)) == Some(
                    k as int,
                ) && k < self.config.mappings@.len(),
                None => longest(self.config.mappings@, chars@.skip(start as int)) is None,
            },
    {
        let ghost text = chars@.skip(start as int);
        let mut best: Option<usize> = None;
        let mut best_length: usize = 0;
        let mut j: usize = 0;
        while j < self.config.mappings.len()
            invariant
                start <= chars@.len(),
                text == chars@.skip(start as int),
                j <= self.config.mappings@.len(),
                match best {
                    Some(k) => longest_before(self.config.mappings@, text, j as int) == Some(
                        k as int,
                    ) && k < j && best_length == self.config.mappings@[k as int].nickname@.len(),
                    None => longest_before(self.config.mappings@, text, j as int) is None
                        && best_length == 0,
                },
            decreases self.config.mappings@.len() - j,
        {
            let mapping = &self.config.mappings[j];
            let name = to_chars(mapping.nickname.as_str());
            assert(occurs_at(chars@, name@, start as int) == occurs_at(text, name@, 0)) by {
                if start + name@.len() <= chars@.len() {
                    assert(text.subrange(0, name@.len() as int) =~= chars@.subrange(
                        start as int,
                        start + name@.len(),
                    ));
                }
            }
            if name.len() > best_length && !is_blank(mapping.note.as_str()) && stands_at(
                chars,
                &name,
                start,
            ) {
                best = Some(j);
                best_length = name.len();
            }
            j = j + 1;
        }
        best
    }

    /// A text in which every name is shown by its note.
    pub fn replace_display_names(&self, text: &str) -> (r: String)
        ensures
            r@ == shown_text(self.config.mappings@, text@),
    {
        let chars = to_chars(text);
        let mut out: Vec<char> = Vec::new();
        let mut start: usize = 0;
        assert(chars@.skip(0) =~= chars@);
        assert(out@ + shown_text(self.config.mappings@, chars@) =~= shown_text(
            self.config.mappings@,
            chars@,
        ));
        while start < chars.len()
            invariant
                start <= chars@.len(),
                out@ + shown_text(self.config.mappings@, chars@.skip(start as int)) == shown_text(
                    self.config.mappings@,
                    chars@,
                ),
            decreases chars@.len() - start,
        {
            let ghost rest = chars@.skip(start as int);
            let ghost whole = out@;
            match self.longest_at(&chars, start) {
                Some(k) => {
                    proof {
                        lemma_longest(
                            self.config.mappings@,
                            rest,
                            self.config.mappings@.len() as int,
                        );
                    }
                    let mapping = &self.config.mappings[k];
                    let mut note = to_chars(trim(mapping.note.as_str()).as_str());
                    let ghost shown_note = note@;
                    let length: usize = to_chars(mapping.nickname.as_str()).len();
                    out.append(&mut note);
                    assert(rest.skip(length as int) =~= chars@.skip(start + length));
                    assert(out@ + shown_text(self.config.mappings@, chars@.skip(start + length))
                        =~= whole + (shown_note + shown_text(
                        self.config.mappings@,
                        rest.skip(length as int),
                    )));
                    start = start + length;
                },
                None => {
                    out.push(chars[start]);
                    assert(rest.skip(1) =~= chars@.skip(start + 1));
                    assert(out@ + shown_text(self.config.mappings@, chars@.skip(start + 1)) =~= whole
                        + (seq![rest[0]] + shown_text(self.config.mappings@, rest.skip(1))));
                    start = start + 1;
                },
            }
        }
        assert(chars@.skip(start as int) =~= Seq::empty());
        assert(out@ + shown_text(self.config.mappings@, chars@.skip(start as int)) =~= out@);
        from_chars(out.as_slice())
    }

    /// The role of a name.
    pub fn role_of(&self, nickname: &str) -> (r: Option<IdentityRole>)
        ensures
            r == role_named(self.config.mappings@, nickname@),
    {
        match self.position(nickname) {
            Some(i) => Some(self.config.mappings[i].role),
            None => None,
        }
    }

    /// Whether a name may do all that a role may.
    pub fn is_at_least(&self, nickname: &str, required: IdentityRole) -> (r: bool)
        ensures
            r == at_least(self.config.mappings@, nickname@, required),
    {
        match self.role_of(nickname) {
            Some(role) => role.covers(required),
            None => false,
        }
    }

    /// Whether a name is the owner's.
    pub fn is_owner(&self, nickname: &str) -> (r: bool)
        ensures
            r == at_least(self.config.mappings@, nickname@, IdentityRole::Owner),
    {
        self.is_at_least(nickname, IdentityRole::Owner)
    }

    /// Whether a name may do all that an administrator may.
    pub fn is_admin_or_above(&self, nickname: &str) -> (r: bool)
        ensures
            r == at_least(self.config.mappings@, nickname@, IdentityRole::Admin),
    {
        self.is_at_least(nickname, IdentityRole::Admin)
    }

    /// Whether a name may do all that a friend may.
    pub fn is_friend_or_above(&self, nickname: &str) -> (r: bool)
        ensures
            r == at_least(self.config.mappings@, nickname@, IdentityRole::Friend),
    {
        self.is_at_least(nickname, IdentityRole::Friend)
    }
}

// ---------------------------------------------------------------------------
// What holds of it
// ---------------------------------------------------------------------------
/// A higher role may do all that a lower one may.
pub proof fn law_roles_are_ranked(
    mappings: Seq<IdentityMapping>,
    nickname: Seq<char>,
    higher: IdentityRole,
    lower: IdentityRole,
)
    requires
        rank(higher) >= rank(lower),
        at_least(mappings, nickname, higher),
    ensures
        at_least(mappings, nickname, lower),
{
}

/// A name is found exactly as it is written; who is not among the names is
/// nobody, and may do nothing.
pub proof fn law_names_are_exact(mappings: Seq<IdentityMapping>, nickname: Seq<char>)
    ensures
        match found(mappings, nickname) {
            Some(i) => 0 <= i < mappings.len() && mappings[i].nickname@ == nickname,
            None => forall|j: int|
                0 <= j < mappings.len() ==> (#[trigger] mappings[j]).nickname@ != nickname,
        },
        found(mappings, nickname) is None ==> !at_least(mappings, nickname, IdentityRole::Friend),
{
    lemma_found_from(mappings, nickname, 0);
}

proof fn lemma_found_from(mappings: Seq<IdentityMapping>, nickname: Seq<char>, i: int)
    requires
        0 <= i,
    ensures
        match found_from(mappings, nickname, i) {
            Some(k) => i <= k < mappings.len() && mappings[k].nickname@ == nickname,
            None => forall|j: int|
                i <= j < mappings.len() ==> (#[trigger] mappings[j]).nickname@ != nickname,
        },
    decreases mappings.len() - i,
{
    if i < mappings.len() && mappings[i].nickname@ != nickname {
        lemma_found_from(mappings, nickname, i + 1);
    }
}

/// Names with nothing wrong are all written and numbered differently.
pub proof fn law_valid_names_differ(mappings: Seq<IdentityMapping>, i: int, j: int)
    requires
        identity_error(mappings) is None,
        0 <= i < j < mappings.len(),
    ensures
        mappings[i].nickname@ != mappings[j].nickname@,
        mappings[i].id != mappings[j].id,
{
    lemma_mapping_fine(mappings, 0, j);
    assert(mappings[i].nickname@ == mappings[j].nickname@ ==> named_before(
        mappings,
        j,
        mappings[j].nickname@,
    ));
    assert(mappings[i].id == mappings[j].id ==> numbered_before(mappings, j, mappings[j].id));
}

proof fn lemma_mapping_fine(mappings: Seq<IdentityMapping>, i: int, j: int)
    requires
        0 <= i <= j < mappings.len(),
        mappings_error(mappings, i) is None,
    ensures
        mapping_error(mappings, j) is None,
    decreases j - i,
{
    if i < j {
        lemma_mapping_fine(mappings, i + 1, j);
    }
}

/// Names with nothing wrong have at most one owner.
pub proof fn law_one_owner(mappings: Seq<IdentityMapping>, i: int, j: int)
    requires
        identity_error(mappings) is None,
        0 <= i < mappings.len(),
        0 <= j < mappings.len(),
        mappings[i].role == IdentityRole::Owner,
        mappings[j].role == IdentityRole::Owner,
    ensures
        i == j,
{
    if i < j {
        lemma_two_owners(mappings, i, j);
    } else if j < i {
        lemma_two_owners(mappings, j, i);
    }
}

proof fn lemma_two_owners(mappings: Seq<IdentityMapping>, i: int, j: int)
    requires
        0 <= i < j < mappings.len(),
        mappings[i].role == IdentityRole::Owner,
        mappings[j].role == IdentityRole::Owner,
    ensures
        owners(mappings) >= 2,
    decreases mappings.len(),
{
    let before = mappings.drop_last();
    if j < mappings.len() - 1 {
        lemma_two_owners(before, i, j);
    } else {
        lemma_an_owner(before, i);
    }
}

proof fn lemma_an_owner(mappings: Seq<IdentityMapping>, i: int)
    requires
        0 <= i < mappings.len(),
        mappings[i].role == IdentityRole::Owner,
    ensures
        owners(mappings) >= 1,
    decreases mappings.len(),
{
    if i < mappings.len() - 1 {
        lemma_an_owner(mappings.drop_last(), i);
    }
}

/// At each place of a text the longest name is shown by its note, and of names
/// that are written alike the first.
pub proof fn law_longest_name_is_shown(mappings: Seq<IdentityMapping>, text: Seq<char>, j: int)
    requires
        0 <= j < mappings.len(),
        stands_for(mappings[j], text),
    ensures
        longest(mappings, text) is Some,
        mappings[longest(mappings, text)->0].nickname@.len() >= mappings[j].nickname@.len(),
        shown_text(mappings, text) == trimmed(mappings[longest(mappings, text)->0].note@)
            + shown_text(
            mappings,
            text.skip(mappings[longest(mappings, text)->0].nickname@.len() as int),
        ),
{
    lemma_longest(mappings, text, mappings.len() as int);
}

/// A text in which no name stands that is shown otherwise stays as it is.
pub proof fn law_other_text_stays(mappings: Seq<IdentityMapping>, text: Seq<char>)
    requires
        forall|i: int, j: int|
            0 <= i < text.len() && 0 <= j < mappings.len() ==> !#[trigger] stands_for(
                mappings[j],
                text.skip(i),
            ),
    ensures
        shown_text(mappings, text) == text,
    decreases text.len(),
{
    if text.len() > 0 {
        lemma_longest(mappings, text, mappings.len() as int);
        assert(text.skip(0) =~= text);
        assert(longest(mappings, text) is None) by {
            if longest(mappings, text) is Some {
                let k = longest(mappings, text)->0;
                assert(!stands_for(mappings[k], text.skip(0)));
            }
        }
        let rest = text.skip(1);
        assert forall|i: int, j: int|
            0 <= i < rest.len() && 0 <= j < mappings.len() implies !#[trigger] stands_for(
            mappings[j],
            rest.skip(i),
        ) by {
            assert(rest.skip(i) =~= text.skip(i + 1));
            assert(!stands_for(mappings[j], text.skip(i + 1)));
        }
        law_other_text_stays(mappings, rest);
        assert(seq![text[0]] + rest =~= text);
    }
}

/// An owner may do all that an admin may, and an admin all that a friend may; nobody may
/// do what only one above them may.
pub proof fn law_ranks(mappings: Seq<IdentityMapping>, nickname: Seq<char>, i: int)
    requires
        found(mappings, nickname) == Some(i),
    ensures
        mappings[i].role == IdentityRole::Owner ==> at_least(
            mappings,
            nickname,
            IdentityRole::Owner,
        ) && at_least(mappings, nickname, IdentityRole::Admin) && at_least(
            mappings,
            nickname,
            IdentityRole::Friend,
        ),
        mappings[i].role == IdentityRole::Admin ==> !at_least(
            mappings,
            nickname,
            IdentityRole::Owner,
        ) && at_least(mappings, nickname, IdentityRole::Admin) && at_least(
            mappings,
            nickname,
            IdentityRole::Friend,
        ),
        mappings[i].role == IdentityRole::Friend ==> !at_least(
            mappings,
            nickname,
            IdentityRole::Owner,
        ) && !at_least(mappings, nickname, IdentityRole::Admin) && at_least(
            mappings,
            nickname,
            IdentityRole::Friend,
        ),
        role_named(mappings, nickname) == Some(mappings[i].role),
        rank(IdentityRole::Friend) < rank(IdentityRole::Admin) < rank(IdentityRole::Owner),
{
}

/// A name that stands among the names is found, and found where it stands first.
pub proof fn law_first_of_a_name(mappings: Seq<IdentityMapping>, i: int)
    requires
        0 <= i < mappings.len(),
    ensures
        found(mappings, mappings[i].nickname@) is Some,
        found(mappings, mappings[i].nickname@)->0 <= i,
        (forall|j: int|
            0 <= j < i ==> (#[trigger] mappings[j]).nickname@ != mappings[i].nickname@) ==> found(
            mappings,
            mappings[i].nickname@,
        ) == Some(i) && role_named(mappings, mappings[i].nickname@) == Some(mappings[i].role),
{
    lemma_found_by(mappings, i, 0);
    law_names_are_exact(mappings, mappings[i].nickname@);
}

proof fn lemma_found_by(mappings: Seq<IdentityMapping>, i: int, from: int)
    requires
        0 <= from <= i < mappings.len(),
    ensures
        found_from(mappings, mappings[i].nickname@, from) matches Some(k) && from <= k <= i,
    decreases i - from,
{
    if mappings[from].nickname@ != mappings[i].nickname@ {
        lemma_found_by(mappings, i, from + 1);
    }
}

/// The names are in order exactly where none is blank, no two are written alike, no two
/// have the same number and at most one is the owner.
pub proof fn law_names_in_order(mappings: Seq<IdentityMapping>)
    ensures
        identity_error(mappings) is None <==> {
            &&& forall|i: int| 0 <= i < mappings.len() ==> !blank((#[trigger] mappings[i]).nickname@)
            &&& forall|i: int, j: int|
                0 <= i < j < mappings.len() ==> (#[trigger] mappings[i]).nickname@ != (
                #[trigger] mappings[j]).nickname@ && mappings[i].id != mappings[j].id
            &&& forall|i: int, j: int|
                0 <= i < j < mappings.len() ==> !((#[trigger] mappings[i]).role
                    == IdentityRole::Owner && (#[trigger] mappings[j]).role == IdentityRole::Owner)
        },
{
    if identity_error(mappings) is None {
        assert forall|i: int| 0 <= i < mappings.len() implies !blank(
            (#[trigger] mappings[i]).nickname@,
        ) by {
            lemma_mapping_fine(mappings, 0, i);
        }
        assert forall|i: int, j: int| 0 <= i < j < mappings.len() implies (
        #[trigger] mappings[i]).nickname@ != (#[trigger] mappings[j]).nickname@ && mappings[i].id
            != mappings[j].id by {
            law_valid_names_differ(mappings, i, j);
        }
        assert forall|i: int, j: int| 0 <= i < j < mappings.len() implies !((
        #[trigger] mappings[i]).role == IdentityRole::Owner && (#[trigger] mappings[j]).role
            == IdentityRole::Owner) by {
            if mappings[i].role == IdentityRole::Owner && mappings[j].role == IdentityRole::Owner {
                law_one_owner(mappings, i, j);
            }
        }
    } else {
        if mappings_error(mappings, 0) is Some {
            let k = lemma_mapping_wrong(mappings, 0);
        } else {
            lemma_second_owner(mappings);
        }
    }
}

proof fn lemma_mapping_wrong(mappings: Seq<IdentityMapping>, i: int) -> (k: int)
    requires
        0 <= i,
        mappings_error(mappings, i) is Some,
    ensures
        i <= k < mappings.len(),
        mapping_error(mappings, k) is Some,
        mapping_error(mappings, k) == mappings_error(mappings, i),
    decreases mappings.len() - i,
{
    if mapping_error(mappings, i) is Some {
        i
    } else {
        lemma_mapping_wrong(mappings, i + 1)
    }
}

proof fn lemma_which_owner(mappings: Seq<IdentityMapping>) -> (i: int)
    requires
        owners(mappings) > 0,
    ensures
        0 <= i < mappings.len(),
        mappings[i].role == IdentityRole::Owner,
    decreases mappings.len(),
{
    if mappings.last().role == IdentityRole::Owner {
        mappings.len() - 1
    } else {
        let i = lemma_which_owner(mappings.drop_last());
        assert(mappings.drop_last()[i] == mappings[i]);
        i
    }
}

proof fn lemma_second_owner(mappings: Seq<IdentityMapping>)
    requires
        owners(mappings) > 1,
    ensures
        exists|i: int, j: int|
            0 <= i < j < mappings.len() && (#[trigger] mappings[i]).role == IdentityRole::Owner && (
            #[trigger] mappings[j]).role == IdentityRole::Owner,
    decreases mappings.len(),
{
    let rest = mappings.drop_last();
    if mappings.last().role == IdentityRole::Owner {
        let i = lemma_which_owner(rest);
        assert(mappings[i] == rest[i]);
        assert(mappings[mappings.len() - 1].role == IdentityRole::Owner);
    } else {
        lemma_second_owner(rest);
        let (i, j) = choose|i: int, j: int|
            0 <= i < j < rest.len() && (#[trigger] rest[i]).role == IdentityRole::Owner && (
            #[trigger] rest[j]).role == IdentityRole::Owner;
        assert(mappings[i] == rest[i] && mappings[j] == rest[j]);
    }
}

/// What is said of names that are not in order is what is wrong with the first that is
/// wrong: that it is blank, that an earlier one is written alike, or that an earlier one
/// has the same number.
pub proof fn law_wrong_name_is_told(mappings: Seq<IdentityMapping>, k: int, j: int)
    requires
        0 <= k < mappings.len(),
        forall|i: int| 0 <= i < k ==> mapping_error(mappings, i) is None,
    ensures
        blank(mappings[k].nickname@) ==> identity_error(mappings) == Some(
            "identity.mappings 存在空昵称"@,
        ),
        !blank(mappings[k].nickname@) && 0 <= j < k && mappings[j].nickname@
            == mappings[k].nickname@ ==> identity_error(mappings) == Some(
            "identity.mappings 昵称重复: "@ + mappings[k].nickname@,
        ),
        !blank(mappings[k].nickname@) && (forall|i: int|
            0 <= i < k ==> (#[trigger] mappings[i]).nickname@ != mappings[k].nickname@) && 0 <= j
            < k && mappings[j].id == mappings[k].id ==> identity_error(mappings) == Some(
            "identity.mappings UUID 重复: "@ + hyphenated(mappings[k].id),
        ),
{
    lemma_error_at(mappings, 0, k);
    if 0 <= j < k {
        assert(mappings[j].nickname@ == mappings[k].nickname@ ==> named_before(
            mappings,
            k,
            mappings[k].nickname@,
        ));
        assert(mappings[j].id == mappings[k].id ==> numbered_before(mappings, k, mappings[k].id));
    }
}

proof fn lemma_error_at(mappings: Seq<IdentityMapping>, i: int, k: int)
    requires
        0 <= i <= k < mappings.len(),
        forall|n: int| 0 <= n < k ==> mapping_error(mappings, n) is None,
    ensures
        mapping_error(mappings, k) is Some ==> mappings_error(mappings, i) == mapping_error(
            mappings,
            k,
        ),
    decreases k - i,
{
    if i < k {
        lemma_error_at(mappings, i + 1, k);
    }
}

/// Somebody is shown by the note on them without the whitespace round it, and by their
/// name where there is none; a name that is not known is shown as it is.
pub proof fn law_how_somebody_is_shown(
    mappings: Seq<IdentityMapping>,
    nickname: Seq<char>,
    note: Seq<char>,
)
    ensures
        blank(note) ==> shown(nickname, note) == nickname,
        !blank(note) ==> shown(nickname, note) == trimmed(note),
        found(mappings, nickname) is None ==> display_of(mappings, nickname) == nickname,
        found(mappings, nickname) matches Some(i) ==> display_of(mappings, nickname) == (if blank(
            mappings[i].note@,
        ) {
            nickname
        } else {
            trimmed(mappings[i].note@)
        }),
{
}

/// A name at the start of a text is shown by its note where no longer one stands there,
/// and the text behind it is treated likewise; where none stands there, the character
/// stays.
pub proof fn law_names_in_a_text(
    mappings: Seq<IdentityMapping>,
    k: int,
    rest: Seq<char>,
    c: char,
)
    requires
        0 <= k < mappings.len(),
        mappings[k].nickname@.len() > 0,
        !blank(mappings[k].note@),
        forall|j: int|
            0 <= j < mappings.len() && j != k ==> (#[trigger] mappings[j]).nickname@.len()
                < mappings[k].nickname@.len(),
    ensures
        shown_text(mappings, mappings[k].nickname@ + rest) == trimmed(mappings[k].note@)
            + shown_text(mappings, rest),
        (forall|j: int|
            0 <= j < mappings.len() ==> !#[trigger] stands_for(mappings[j], seq![c] + rest))
            ==> shown_text(mappings, seq![c] + rest) == seq![c] + shown_text(mappings, rest),
{
    let text = mappings[k].nickname@ + rest;
    let n = mappings[k].nickname@.len() as int;
    assert(text.subrange(0, n) =~= mappings[k].nickname@);
    assert(stands_for(mappings[k], text));
    lemma_longest(mappings, text, mappings.len() as int);
    assert(longest(mappings, text) == Some(k));
    assert(text.skip(n) =~= rest);
    lemma_longest(mappings, seq![c] + rest, mappings.len() as int);
    assert((seq![c] + rest).skip(1) =~= rest);
}

/// An identifier is written in thirty-two digits, in five groups with a hyphen between
/// each two, and no two are written alike.
pub proof fn law_identifiers(id: u128, other: u128)
    ensures
        hyphenated(id).len() == 36,
        hyphenated(id)[8] == '-',
        hyphenated(id)[13] == '-',
        hyphenated(id)[18] == '-',
        hyphenated(id)[23] == '-',
        hyphenated(id)[35] == hex_char(id as int % 16),
        hyphenated(id) == hyphenated(other) ==> id == other,
{
    lemma_hex_len(id as int, 32);
    lemma_hex_len(other as int, 32);
    let a = hex_digits(id as int, 32);
    let b = hex_digits(other as int, 32);
    assert(hyphenated(id)[35] == a[31]);
    if hyphenated(id) == hyphenated(other) {
        assert forall|n: int| 0 <= n < 32 implies a[n] == b[n] by {
            let at: int = if n < 8 {
                n
            } else if n < 12 {
                n + 1
            } else if n < 16 {
                n + 2
            } else if n < 20 {
                n + 3
            } else {
                n + 4
            };
            assert(hyphenated(id)[at] == a[n]);
            assert(hyphenated(other)[at] == b[n]);
        }
        assert(a =~= b);
        lemma_hex_tells(id as int, other as int, 32);
        lemma_sixteens();
    }
}

proof fn lemma_hex_len(n: int, count: nat)
    ensures
        hex_digits(n, count).len() == count,
    decreases count,
{
    if count > 0 {
        lemma_hex_len(n / 16, (count - 1) as nat);
    }
}

spec fn sixteens(count: nat) -> int
    decreases count,
{
    if count == 0 {
        1
    } else {
        sixteens((count - 1) as nat) * 16
    }
}

proof fn lemma_sixteens()
    ensures
        sixteens(32) == u128::MAX + 1,
{
    reveal_with_fuel(sixteens, 33);
}

proof fn lemma_hex_tells(a: int, b: int, count: nat)
    requires
        0 <= a,
        0 <= b,
        hex_digits(a, count) == hex_digits(b, count),
    ensures
        a < sixteens(count) && b < sixteens(count) ==> a == b,
    decreases count,
{
    if count > 0 {
        let less = (count - 1) as nat;
        lemma_hex_len(a / 16, less);
        lemma_hex_len(b / 16, less);
        let left = hex_digits(a, count);
        let right = hex_digits(b, count);
        assert(left.last() == right.last());
        assert(left.drop_last() =~= hex_digits(a / 16, less));
        assert(right.drop_last() =~= hex_digits(b / 16, less));
        lemma_hex_tells(a / 16, b / 16, less);
        assert(a % 16 == b % 16);
    }
}

} // verus!
