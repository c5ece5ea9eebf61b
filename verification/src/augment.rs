//! The selective multi-pass snapshot loader and the read-only catalog
//! index it builds, together with the augmentation queries over it.
//!
//! The archive's tables arrive as plain rows (the caller reads them, one
//! full pass per table); everything decided about them — selection,
//! cross-reference resolution, silent dropping of rows whose parent was
//! filtered out — happens here and is verified against the pass
//! transition functions below.

use vstd::prelude::*;
use crate::convert::{
    CrateData, TeamCrateOwner, TypstString, UserCrateOwner, capped_owners, truncate_description,
    truncated_description, typst_escaped, MAX_OWNERS_SHOWN,
};
use crate::error::Error;
use crate::names::{CrateName, is_valid_crate_name};

verus! {

/// A reference to a crate owner: the two owner kinds, each carrying the
/// owner's id.
#[derive(Debug, Clone, Copy, PartialEq, Eq, Structural)]
pub enum OwnerId {
    User(u64),
    Team(u64),
}

/// One row of the archive's crates table.
#[derive(Debug, Clone)]
pub struct CrateRow {
    pub id: u64,
    pub name: String,
    pub description: String,
}

/// One row of the archive's crate-owners table.
#[derive(Debug, Clone, Copy)]
pub struct CrateOwnerRow {
    pub crate_id: u64,
    pub owner_id: OwnerId,
}

/// One row of the archive's teams table.
#[derive(Debug, Clone)]
pub struct TeamRow {
    pub id: u64,
    pub avatar: String,
}

/// One row of the archive's users table.
#[derive(Debug, Clone)]
pub struct UserRow {
    pub id: u64,
    pub gh_avatar: String,
}

/// One row of the archive's default-versions table.
#[derive(Debug, Clone, Copy)]
pub struct DefaultVersionRow {
    pub crate_id: u64,
    pub version_id: u64,
}

/// One row of the archive's versions table.
#[derive(Debug, Clone)]
pub struct VersionRow {
    pub crate_id: u64,
    pub id: u64,
    pub license: String,
}

/// The six tables of one snapshot archive, each read by its own full
/// pass, in the order the passes consume them.
#[derive(Debug)]
pub struct ArchiveTables {
    pub crates: Vec<CrateRow>,
    pub crate_owners: Vec<CrateOwnerRow>,
    pub teams: Vec<TeamRow>,
    pub users: Vec<UserRow>,
    pub default_versions: Vec<DefaultVersionRow>,
    pub versions: Vec<VersionRow>,
}

/// The selection policy: a pure predicate over raw crate names, decided
/// once before loading.
#[derive(Debug)]
pub enum LoadFilter {
    /// Retain the crates whose name is in this list.
    Select(Vec<String>),
    /// Retain the single crate with this name.
    Single(String),
    /// Retain every crate.
    All,
}

impl LoadFilter {
    /// What [`matches`](Self::matches) decides.
    pub open spec fn spec_matches(&self, name: Seq<char>) -> bool {
        match self {
            LoadFilter::All => true,
            LoadFilter::Single(item) => item@ == name,
            LoadFilter::Select(items) => exists|i: int|
                0 <= i < items@.len() && (#[trigger] items@[i])@ == name,
        }
    }

    /// Whether a crate of this name is retained.
    pub fn matches(&self, name: &str) -> (b: bool)
        ensures
            b == self.spec_matches(name@),
    {
        let owned: String = name.to_owned();
        match self {
            LoadFilter::All => true,
            LoadFilter::Single(item) => *item == owned,
            LoadFilter::Select(items) => {
                let mut i: usize = 0;
                while i < items.len()
                    invariant
                        i <= items@.len(),
                        owned@ == name@,
                        self.spec_matches(name@) == (exists|ii: int|
                            0 <= ii < items@.len() && (#[trigger] items@[ii])@ == name@),
                        forall|j: int| 0 <= j < i ==> (#[trigger] items@[j])@ != name@,
                    decreases items@.len() - i,
                {
                    if items[i] == owned {
                        proof {
                            assert((items@[i as int])@ == name@);
                        }
                        return true;
                    }
                    i = i + 1;
                }
                false
            },
        }
    }
}

/// The mathematical shape of one retained catalog record.
pub struct ItemModel {
    pub id: u64,
    pub name: Seq<char>,
    pub description: Seq<char>,
    /// Owner references in first-seen order, duplicates kept.
    pub owners: Seq<OwnerId>,
    /// Unresolved until the default-versions pass finds this crate.
    pub default_version: Option<u64>,
    /// Unresolved until the versions pass finds the default version.
    pub license: Option<Seq<char>>,
}

/// The mathematical shape of one registered owner identity.
pub struct IdentityModel {
    pub owner_id: OwnerId,
    /// Unresolved until the matching identity pass finds this owner.
    pub avatar: Option<Seq<char>>,
}

/// The mathematical shape of the catalog index.
pub struct DbModel {
    /// Retained records, in first-seen order.
    pub items: Seq<ItemModel>,
    /// Identities registered for referenced owners, in first-seen order.
    pub identities: Seq<IdentityModel>,
}

/// The index before any pass has run.
pub open spec fn empty_db() -> DbModel {
    DbModel { items: Seq::empty(), identities: Seq::empty() }
}

/// Position of the first record with this crate id, or `-1`.
pub open spec fn find_item(items: Seq<ItemModel>, id: u64) -> int
    decreases items.len(),
{
    if items.len() == 0 {
        -1
    } else if items[0].id == id {
        0
    } else {
        let r = find_item(items.drop_first(), id);
        if r < 0 {
            -1
        } else {
            r + 1
        }
    }
}

/// Position of the first record with this name, or `-1`.
pub open spec fn find_item_by_name(items: Seq<ItemModel>, name: Seq<char>) -> int
    decreases items.len(),
{
    if items.len() == 0 {
        -1
    } else if items[0].name == name {
        0
    } else {
        let r = find_item_by_name(items.drop_first(), name);
        if r < 0 {
            -1
        } else {
            r + 1
        }
    }
}

/// Position of the first identity of this owner, or `-1`.
pub open spec fn find_identity(ids: Seq<IdentityModel>, owner: OwnerId) -> int
    decreases ids.len(),
{
    if ids.len() == 0 {
        -1
    } else if ids[0].owner_id == owner {
        0
    } else {
        let r = find_identity(ids.drop_first(), owner);
        if r < 0 {
            -1
        } else {
            r + 1
        }
    }
}

/// `find_item` finds the first match: at the first position whose prefix
/// holds no match, it answers that position or reports absence.
pub proof fn lemma_find_item_at(items: Seq<ItemModel>, id: u64, i: int)
    requires
        0 <= i <= items.len(),
        forall|j: int| 0 <= j < i ==> items[j].id != id,
        i < items.len() ==> items[i].id == id,
    ensures
        find_item(items, id) == if i < items.len() {
            i
        } else {
            -1
        },
    decreases items.len(),
{
    if items.len() > 0 {
        if i > 0 {
            lemma_find_item_at(items.drop_first(), id, i - 1);
        }
    }
}

/// As [`lemma_find_item_at`], for `find_item_by_name`.
pub proof fn lemma_find_item_by_name_at(items: Seq<ItemModel>, name: Seq<char>, i: int)
    requires
        0 <= i <= items.len(),
        forall|j: int| 0 <= j < i ==> items[j].name != name,
        i < items.len() ==> items[i].name == name,
    ensures
        find_item_by_name(items, name) == if i < items.len() {
            i
        } else {
            -1
        },
    decreases items.len(),
{
    if items.len() > 0 {
        if i > 0 {
            lemma_find_item_by_name_at(items.drop_first(), name, i - 1);
        }
    }
}

/// As [`lemma_find_item_at`], for `find_identity`.
pub proof fn lemma_find_identity_at(ids: Seq<IdentityModel>, owner: OwnerId, i: int)
    requires
        0 <= i <= ids.len(),
        forall|j: int| 0 <= j < i ==> ids[j].owner_id != owner,
        i < ids.len() ==> ids[i].owner_id == owner,
    ensures
        find_identity(ids, owner) == if i < ids.len() {
            i
        } else {
            -1
        },
    decreases ids.len(),
{
    if ids.len() > 0 {
        if i > 0 {
            lemma_find_identity_at(ids.drop_first(), owner, i - 1);
        }
    }
}

/// What `find_item` answers is a first match: in range, matching, with
/// no match before it; `-1` means no match at all.
pub proof fn lemma_find_item_props(items: Seq<ItemModel>, id: u64)
    ensures
        find_item(items, id) >= 0 ==> {
            &&& find_item(items, id) < items.len()
            &&& items[find_item(items, id)].id == id
            &&& forall|j: int| 0 <= j < find_item(items, id) ==> items[j].id != id
        },
        find_item(items, id) == -1 ==> forall|j: int| 0 <= j < items.len() ==> items[j].id != id,
        find_item(items, id) >= 0 || find_item(items, id) == -1,
    decreases items.len(),
{
    if items.len() > 0 && items[0].id != id {
        let rest = items.drop_first();
        lemma_find_item_props(rest, id);
        let r = find_item(rest, id);
        if r >= 0 {
            assert(items[r + 1] == rest[r]);
            assert forall|j: int| 0 <= j < r + 1 implies items[j].id != id by {
                if j > 0 {
                    assert(items[j] == rest[j - 1]);
                }
            }
        } else {
            assert forall|j: int| 0 <= j < items.len() implies items[j].id != id by {
                if j > 0 {
                    assert(items[j] == rest[j - 1]);
                }
            }
        }
    }
}

/// As [`lemma_find_item_props`], for `find_identity`.
pub proof fn lemma_find_identity_props(ids: Seq<IdentityModel>, owner: OwnerId)
    ensures
        find_identity(ids, owner) >= 0 ==> {
            &&& find_identity(ids, owner) < ids.len()
            &&& ids[find_identity(ids, owner)].owner_id == owner
        },
        find_identity(ids, owner) == -1 ==> forall|j: int|
            0 <= j < ids.len() ==> ids[j].owner_id != owner,
        find_identity(ids, owner) >= 0 || find_identity(ids, owner) == -1,
    decreases ids.len(),
{
    if ids.len() > 0 && ids[0].owner_id != owner {
        let rest = ids.drop_first();
        lemma_find_identity_props(rest, owner);
        let r = find_identity(rest, owner);
        if r >= 0 {
            assert(ids[r + 1] == rest[r]);
        } else {
            assert forall|j: int| 0 <= j < ids.len() implies ids[j].owner_id != owner by {
                if j > 0 {
                    assert(ids[j] == rest[j - 1]);
                }
            }
        }
    }
}

/// Items pass, one row: a row whose name the policy rejects is skipped;
/// any other begins a fresh record with an empty owner list and
/// unresolved default version.
pub open spec fn apply_crate_row(db: DbModel, row: CrateRow, filter: LoadFilter) -> DbModel {
    if filter.spec_matches(row.name@) {
        DbModel {
            items: db.items.push(
                ItemModel {
                    id: row.id,
                    name: row.name@,
                    description: row.description@,
                    owners: Seq::empty(),
                    default_version: None,
                    license: None,
                },
            ),
            identities: db.identities,
        }
    } else {
        db
    }
}

/// Items pass over a whole table, in row order.
pub open spec fn apply_crate_rows(db: DbModel, rows: Seq<CrateRow>, filter: LoadFilter) -> DbModel
    decreases rows.len(),
{
    if rows.len() == 0 {
        db
    } else {
        apply_crate_row(apply_crate_rows(db, rows.drop_last(), filter), rows.last(), filter)
    }
}

/// Owners pass, one row: a row whose crate was not retained is silently
/// dropped; otherwise the reference is appended to that record's list
/// (first record with the id, duplicates kept) and the owner is
/// registered as referenced, identity still unknown, if not yet
/// registered.
pub open spec fn apply_crate_owner_row(db: DbModel, row: CrateOwnerRow) -> DbModel {
    let i = find_item(db.items, row.crate_id);
    if i >= 0 {
        let item = db.items[i];
        let items = db.items.update(i, ItemModel { owners: item.owners.push(row.owner_id), ..item });
        let identities = if find_identity(db.identities, row.owner_id) >= 0 {
            db.identities
        } else {
            db.identities.push(IdentityModel { owner_id: row.owner_id, avatar: None })
        };
        DbModel { items, identities }
    } else {
        db
    }
}

/// Owners pass over a whole table, in row order.
pub open spec fn apply_crate_owner_rows(db: DbModel, rows: Seq<CrateOwnerRow>) -> DbModel
    decreases rows.len(),
{
    if rows.len() == 0 {
        db
    } else {
        apply_crate_owner_row(apply_crate_owner_rows(db, rows.drop_last()), rows.last())
    }
}

/// Team-identity pass, one row: attaches the avatar to the registered
/// identity of this team, if it was referenced; otherwise the row is
/// dropped.
pub open spec fn apply_team_row(db: DbModel, row: TeamRow) -> DbModel {
    let j = find_identity(db.identities, OwnerId::Team(row.id));
    if j >= 0 {
        let identity = db.identities[j];
        DbModel {
            items: db.items,
            identities: db.identities.update(
                j,
                IdentityModel { avatar: Some(row.avatar@), ..identity },
            ),
        }
    } else {
        db
    }
}

/// Team-identity pass over a whole table, in row order.
pub open spec fn apply_team_rows(db: DbModel, rows: Seq<TeamRow>) -> DbModel
    decreases rows.len(),
{
    if rows.len() == 0 {
        db
    } else {
        apply_team_row(apply_team_rows(db, rows.drop_last()), rows.last())
    }
}

/// User-identity pass, one row: as the team pass, for user owners.
pub open spec fn apply_user_row(db: DbModel, row: UserRow) -> DbModel {
    let j = find_identity(db.identities, OwnerId::User(row.id));
    if j >= 0 {
        let identity = db.identities[j];
        DbModel {
            items: db.items,
            identities: db.identities.update(
                j,
                IdentityModel { avatar: Some(row.gh_avatar@), ..identity },
            ),
        }
    } else {
        db
    }
}

/// User-identity pass over a whole table, in row order.
pub open spec fn apply_user_rows(db: DbModel, rows: Seq<UserRow>) -> DbModel
    decreases rows.len(),
{
    if rows.len() == 0 {
        db
    } else {
        apply_user_row(apply_user_rows(db, rows.drop_last()), rows.last())
    }
}

/// Default-version pass, one row: resolves the default-version slot of a
/// retained crate; rows of unretained crates are dropped.
pub open spec fn apply_default_version_row(db: DbModel, row: DefaultVersionRow) -> DbModel {
    let i = find_item(db.items, row.crate_id);
    if i >= 0 {
        let item = db.items[i];
        DbModel {
            items: db.items.update(
                i,
                ItemModel { default_version: Some(row.version_id), ..item },
            ),
            identities: db.identities,
        }
    } else {
        db
    }
}

/// Default-version pass over a whole table, in row order.
pub open spec fn apply_default_version_rows(db: DbModel, rows: Seq<DefaultVersionRow>) -> DbModel
    decreases rows.len(),
{
    if rows.len() == 0 {
        db
    } else {
        apply_default_version_row(apply_default_version_rows(db, rows.drop_last()), rows.last())
    }
}

/// Versions pass, one row: records the license only for the row matching
/// a retained crate's resolved default version; every other version row
/// is discarded at once.
pub open spec fn apply_version_row(db: DbModel, row: VersionRow) -> DbModel {
    let i = find_item(db.items, row.crate_id);
    if i >= 0 && db.items[i].default_version == Some(row.id) {
        let item = db.items[i];
        DbModel {
            items: db.items.update(i, ItemModel { license: Some(row.license@), ..item }),
            identities: db.identities,
        }
    } else {
        db
    }
}

/// Versions pass over a whole table, in row order.
pub open spec fn apply_version_rows(db: DbModel, rows: Seq<VersionRow>) -> DbModel
    decreases rows.len(),
{
    if rows.len() == 0 {
        db
    } else {
        apply_version_row(apply_version_rows(db, rows.drop_last()), rows.last())
    }
}

/// The whole load: the six passes, in their required order, from the
/// empty index.
pub open spec fn load_model(tables: ArchiveTables, filter: LoadFilter) -> DbModel {
    apply_version_rows(
        apply_default_version_rows(
            apply_user_rows(
                apply_team_rows(
                    apply_crate_owner_rows(
                        apply_crate_rows(empty_db(), tables.crates@, filter),
                        tables.crate_owners@,
                    ),
                    tables.teams@,
                ),
                tables.users@,
            ),
            tables.default_versions@,
        ),
        tables.versions@,
    )
}

/// One retained catalog record.
#[derive(Debug)]
struct ItemRecord {
    id: u64,
    name: String,
    description: String,
    owners: Vec<OwnerId>,
    default_version: Option<u64>,
    license: Option<String>,
}

impl View for ItemRecord {
    type V = ItemModel;

    closed spec fn view(&self) -> ItemModel {
        ItemModel {
            id: self.id,
            name: self.name@,
            description: self.description@,
            owners: self.owners@,
            default_version: self.default_version,
            license: match self.license {
                Some(l) => Some(l@),
                None => None,
            },
        }
    }
}

/// One registered owner identity.
#[derive(Debug)]
struct OwnerIdentity {
    owner_id: OwnerId,
    avatar: Option<String>,
}

impl View for OwnerIdentity {
    type V = IdentityModel;

    closed spec fn view(&self) -> IdentityModel {
        IdentityModel {
            owner_id: self.owner_id,
            avatar: match self.avatar {
                Some(a) => Some(a@),
                None => None,
            },
        }
    }
}

/// The in-memory, read-only catalog index: retained records and the
/// identities of the owners they reference, nothing else.
#[derive(Debug)]
pub struct CrateDb {
    items: Vec<ItemRecord>,
    identities: Vec<OwnerIdentity>,
}

impl View for CrateDb {
    type V = DbModel;

    closed spec fn view(&self) -> DbModel {
        DbModel {
            items: self.items@.map_values(|r: ItemRecord| r@),
            identities: self.identities@.map_values(|o: OwnerIdentity| o@),
        }
    }
}

impl CrateDb {
    /// Position of the first record with this crate id, if any.
    fn find_index(&self, id: u64) -> (r: Option<usize>)
        ensures
            (match r {
                Some(i) => find_item(self@.items, id) == i,
                None => find_item(self@.items, id) == -1,
            }),
    {
        let mut i: usize = 0;
        while i < self.items.len()
            invariant
                i <= self@.items.len(),
                self@.items.len() == self.items@.len(),
                forall|j: int| 0 <= j < i ==> self@.items[j].id != id,
            decreases self.items@.len() - i,
        {
            if self.items[i].id == id {
                proof {
                    lemma_find_item_at(self@.items, id, i as int);
                }
                return Some(i);
            }
            i = i + 1;
        }
        proof {
            lemma_find_item_at(self@.items, id, self@.items.len() as int);
        }
        None
    }

    /// Position of the first identity of this owner, if any.
    fn find_identity_index(&self, owner: OwnerId) -> (r: Option<usize>)
        ensures
            (match r {
                Some(i) => find_identity(self@.identities, owner) == i,
                None => find_identity(self@.identities, owner) == -1,
            }),
    {
        let mut i: usize = 0;
        while i < self.identities.len()
            invariant
                i <= self@.identities.len(),
                self@.identities.len() == self.identities@.len(),
                forall|j: int| 0 <= j < i ==> self@.identities[j].owner_id != owner,
            decreases self.identities@.len() - i,
        {
            if self.identities[i].owner_id == owner {
                proof {
                    lemma_find_identity_at(self@.identities, owner, i as int);
                }
                return Some(i);
            }
            i = i + 1;
        }
        proof {
            lemma_find_identity_at(self@.identities, owner, self@.identities.len() as int);
        }
        None
    }

    /// Items pass, one row.
    fn add_crate_row(&mut self, row: &CrateRow, filter: &LoadFilter)
        ensures
            final(self)@ == apply_crate_row(old(self)@, *row, *filter),
    {
        if filter.matches(row.name.as_str()) {
            self.items.push(
                ItemRecord {
                    id: row.id,
                    name: row.name.clone(),
                    description: row.description.clone(),
                    owners: Vec::new(),
                    default_version: None,
                    license: None,
                },
            );
            proof {
                assert(self@.items =~= apply_crate_row(old(self)@, *row, *filter).items);
                assert(self@ == apply_crate_row(old(self)@, *row, *filter));
            }
        }
    }

    /// Owners pass, one row.
    fn add_crate_owner_row(&mut self, row: CrateOwnerRow)
        ensures
            final(self)@ == apply_crate_owner_row(old(self)@, row),
    {
        match self.find_index(row.crate_id) {
            Some(i) => {
                proof {
                    lemma_find_item_props(self@.items, row.crate_id);
                }
                let mut rec = self.items.remove(i);
                rec.owners.push(row.owner_id);
                self.items.insert(i, rec);
                match self.find_identity_index(row.owner_id) {
                    Some(_) => {
                        proof {
                            assert(self@.items =~= apply_crate_owner_row(old(self)@, row).items);
                            assert(self@.identities =~= apply_crate_owner_row(
                                old(self)@,
                                row,
                            ).identities);
                        }
                    },
                    None => {
                        self.identities.push(
                            OwnerIdentity { owner_id: row.owner_id, avatar: None },
                        );
                        proof {
                            assert(self@.items =~= apply_crate_owner_row(old(self)@, row).items);
                            assert(self@.identities =~= apply_crate_owner_row(
                                old(self)@,
                                row,
                            ).identities);
                        }
                    },
                }
            },
            None => {},
        }
    }

    /// Team-identity pass, one row.
    fn add_team_row(&mut self, row: &TeamRow)
        ensures
            final(self)@ == apply_team_row(old(self)@, *row),
    {
        match self.find_identity_index(OwnerId::Team(row.id)) {
            Some(j) => {
                proof {
                    lemma_find_identity_props(self@.identities, OwnerId::Team(row.id));
                }
                let mut identity = self.identities.remove(j);
                identity.avatar = Some(row.avatar.clone());
                self.identities.insert(j, identity);
                proof {
                    assert(self@.items =~= apply_team_row(old(self)@, *row).items);
                    assert(self@.identities =~= apply_team_row(old(self)@, *row).identities);
                }
            },
            None => {},
        }
    }

    /// User-identity pass, one row.
    fn add_user_row(&mut self, row: &UserRow)
        ensures
            final(self)@ == apply_user_row(old(self)@, *row),
    {
        match self.find_identity_index(OwnerId::User(row.id)) {
            Some(j) => {
                proof {
                    lemma_find_identity_props(self@.identities, OwnerId::User(row.id));
                }
                let mut identity = self.identities.remove(j);
                identity.avatar = Some(row.gh_avatar.clone());
                self.identities.insert(j, identity);
                proof {
                    assert(self@.items =~= apply_user_row(old(self)@, *row).items);
                    assert(self@.identities =~= apply_user_row(old(self)@, *row).identities);
                }
            },
            None => {},
        }
    }

    /// Default-version pass, one row.
    fn add_default_version_row(&mut self, row: DefaultVersionRow)
        ensures
            final(self)@ == apply_default_version_row(old(self)@, row),
    {
        match self.find_index(row.crate_id) {
            Some(i) => {
                proof {
                    lemma_find_item_props(self@.items, row.crate_id);
                }
                let mut rec = self.items.remove(i);
                rec.default_version = Some(row.version_id);
                self.items.insert(i, rec);
                proof {
                    assert(self@.items =~= apply_default_version_row(old(self)@, row).items);
                    assert(self@.identities =~= apply_default_version_row(
                        old(self)@,
                        row,
                    ).identities);
                }
            },
            None => {},
        }
    }

    /// Versions pass, one row.
    fn add_version_row(&mut self, row: &VersionRow)
        ensures
            final(self)@ == apply_version_row(old(self)@, *row),
    {
        match self.find_index(row.crate_id) {
            Some(i) => {
                proof {
                    lemma_find_item_props(self@.items, row.crate_id);
                }
                let dv: Option<u64> = self.items[i].default_version;
                let is_default = match dv {
                    Some(v) => v == row.id,
                    None => false,
                };
                if is_default {
                    let mut rec = self.items.remove(i);
                    rec.license = Some(row.license.clone());
                    self.items.insert(i, rec);
                    proof {
                        assert(self@.items =~= apply_version_row(old(self)@, *row).items);
                        assert(self@.identities =~= apply_version_row(old(self)@, *row).identities);
                    }
                }
            },
            None => {},
        }
    }

    /// Build the catalog index from the archive's tables under a
    /// selection policy: six passes, each consuming only state the
    /// earlier ones established, so the result is pinned by
    /// [`load_model`] whatever order the rows arrived in.
    pub fn load_with_filter(tables: ArchiveTables, filter: &LoadFilter) -> (db: CrateDb)
        ensures
            db@ == load_model(tables, *filter),
    {
        let ArchiveTables { crates, crate_owners, teams, users, default_versions, versions } =
            tables;
        let mut db = CrateDb { items: Vec::new(), identities: Vec::new() };
        proof {
            assert(db@.items =~= empty_db().items);
            assert(db@.identities =~= empty_db().identities);
        }
        let mut i: usize = 0;
        while i < crates.len()
            invariant
                i <= crates@.len(),
                db@ == apply_crate_rows(empty_db(), crates@.take(i as int), *filter),
            decreases crates@.len() - i,
        {
            proof {
                assert(crates@.take(i + 1).drop_last() =~= crates@.take(i as int));
                assert(crates@.take(i + 1).last() == crates@[i as int]);
            }
            db.add_crate_row(&crates[i], filter);
            i = i + 1;
        }
        proof {
            assert(crates@.take(crates@.len() as int) =~= crates@);
        }
        let ghost db1 = apply_crate_rows(empty_db(), crates@, *filter);
        let mut i: usize = 0;
        while i < crate_owners.len()
            invariant
                i <= crate_owners@.len(),
                db@ == apply_crate_owner_rows(db1, crate_owners@.take(i as int)),
            decreases crate_owners@.len() - i,
        {
            proof {
                assert(crate_owners@.take(i + 1).drop_last() =~= crate_owners@.take(i as int));
                assert(crate_owners@.take(i + 1).last() == crate_owners@[i as int]);
            }
            let row = crate_owners[i];
            db.add_crate_owner_row(row);
            i = i + 1;
        }
        proof {
            assert(crate_owners@.take(crate_owners@.len() as int) =~= crate_owners@);
        }
        let ghost db2 = apply_crate_owner_rows(db1, crate_owners@);
        let mut i: usize = 0;
        while i < teams.len()
            invariant
                i <= teams@.len(),
                db@ == apply_team_rows(db2, teams@.take(i as int)),
            decreases teams@.len() - i,
        {
            proof {
                assert(teams@.take(i + 1).drop_last() =~= teams@.take(i as int));
                assert(teams@.take(i + 1).last() == teams@[i as int]);
            }
            db.add_team_row(&teams[i]);
            i = i + 1;
        }
        proof {
            assert(teams@.take(teams@.len() as int) =~= teams@);
        }
        let ghost db3 = apply_team_rows(db2, teams@);
        let mut i: usize = 0;
        while i < users.len()
            invariant
                i <= users@.len(),
                db@ == apply_user_rows(db3, users@.take(i as int)),
            decreases users@.len() - i,
        {
            proof {
                assert(users@.take(i + 1).drop_last() =~= users@.take(i as int));
                assert(users@.take(i + 1).last() == users@[i as int]);
            }
            db.add_user_row(&users[i]);
            i = i + 1;
        }
        proof {
            assert(users@.take(users@.len() as int) =~= users@);
        }
        let ghost db4 = apply_user_rows(db3, users@);
        let mut i: usize = 0;
        while i < default_versions.len()
            invariant
                i <= default_versions@.len(),
                db@ == apply_default_version_rows(db4, default_versions@.take(i as int)),
            decreases default_versions@.len() - i,
        {
            proof {
                assert(default_versions@.take(i + 1).drop_last() =~= default_versions@.take(
                    i as int,
                ));
                assert(default_versions@.take(i + 1).last() == default_versions@[i as int]);
            }
            let row = default_versions[i];
            db.add_default_version_row(row);
            i = i + 1;
        }
        proof {
            assert(default_versions@.take(default_versions@.len() as int) =~= default_versions@);
        }
        let ghost db5 = apply_default_version_rows(db4, default_versions@);
        let mut i: usize = 0;
        while i < versions.len()
            invariant
                i <= versions@.len(),
                db@ == apply_version_rows(db5, versions@.take(i as int)),
            decreases versions@.len() - i,
        {
            proof {
                assert(versions@.take(i + 1).drop_last() =~= versions@.take(i as int));
                assert(versions@.take(i + 1).last() == versions@[i as int]);
            }
            db.add_version_row(&versions[i]);
            i = i + 1;
        }
        proof {
            assert(versions@.take(versions@.len() as int) =~= versions@);
        }
        db
    }
}

/// The display form of an avatar: the size parameter appended, then the
/// whole URL escaped for typst source.
pub open spec fn avatar_display(a: Seq<char>) -> Seq<char> {
    typst_escaped(a + "&s=70"@)
}

/// The resolved display avatars of one owner kind among `owners`, in
/// first-seen order: owners of the other kind are passed over, and so is
/// any owner whose identity is still unresolved.
pub open spec fn kind_avatars(
    owners: Seq<OwnerId>,
    ids: Seq<IdentityModel>,
    want_user: bool,
) -> Seq<Seq<char>>
    decreases owners.len(),
{
    if owners.len() == 0 {
        Seq::empty()
    } else {
        let rest = kind_avatars(owners.drop_last(), ids, want_user);
        let wanted = match owners.last() {
            OwnerId::User(_) => want_user,
            OwnerId::Team(_) => !want_user,
        };
        if wanted {
            let j = find_identity(ids, owners.last());
            if j >= 0 {
                match ids[j].avatar {
                    Some(a) => rest.push(avatar_display(a)),
                    None => rest,
                }
            } else {
                rest
            }
        } else {
            rest
        }
    }
}

/// The index holds a record of this name.
pub open spec fn contains_crate(db: DbModel, name: Seq<char>) -> bool {
    exists|i: int| 0 <= i < db.items.len() && (#[trigger] db.items[i]).name == name
}

/// `data` is the render-ready projection of `item`: same name, the
/// description truncated then escaped, each owner sub-list resolved in
/// order and capped, and the license escaped once it is known.
pub open spec fn is_augmented(item: ItemModel, ids: Seq<IdentityModel>, data: CrateData) -> bool {
    &&& data.name@ == item.name
    &&& data.description@ == typst_escaped(truncated_description(item.description))
    &&& data.user_owners.deep_view() == capped_owners(kind_avatars(item.owners, ids, true))
    &&& data.team_owners.deep_view() == capped_owners(kind_avatars(item.owners, ids, false))
    &&& (match item.license {
        Some(l) => data.license matches Some(t) && t@ == typst_escaped(l),
        None => data.license is None,
    })
}

impl CrateDb {
    /// How many records the index retained.
    pub fn item_count(&self) -> (n: usize)
        ensures
            n == self@.items.len(),
    {
        self.items.len()
    }

    /// How many owner identities the index registered.
    pub fn identity_count(&self) -> (n: usize)
        ensures
            n == self@.identities.len(),
    {
        self.identities.len()
    }

    /// Position of the first record with this name, if any.
    fn find_index_by_name(&self, name: &String) -> (r: Option<usize>)
        ensures
            (match r {
                Some(i) => find_item_by_name(self@.items, name@) == i,
                None => find_item_by_name(self@.items, name@) == -1,
            }),
    {
        let mut i: usize = 0;
        while i < self.items.len()
            invariant
                i <= self@.items.len(),
                self@.items.len() == self.items@.len(),
                forall|j: int| 0 <= j < i ==> self@.items[j].name != name@,
            decreases self.items@.len() - i,
        {
            if self.items[i].name == *name {
                proof {
                    lemma_find_item_by_name_at(self@.items, name@, i as int);
                }
                return Some(i);
            }
            i = i + 1;
        }
        proof {
            lemma_find_item_by_name_at(self@.items, name@, self@.items.len() as int);
        }
        None
    }

    /// Assemble the render-ready record of the item at `idx`.
    fn build_data(&self, idx: usize, name: CrateName) -> (data: CrateData)
        requires
            idx < self@.items.len(),
            self@.items[idx as int].name == name@,
        ensures
            is_augmented(self@.items[idx as int], self@.identities, data),
    {
        let rec = &self.items[idx];
        let truncated = truncate_description(rec.description.as_str());
        let description = TypstString::escape(truncated.as_str());
        let license = match &rec.license {
            Some(l) => Some(TypstString::escape(l.as_str())),
            None => None,
        };
        let mut user_owners: Vec<UserCrateOwner> = Vec::new();
        let mut team_owners: Vec<TeamCrateOwner> = Vec::new();
        let mut k: usize = 0;
        while k < rec.owners.len()
            invariant
                idx < self@.items.len(),
                rec == &self.items[idx as int],
                rec@ == self@.items[idx as int],
                k <= rec.owners@.len(),
                user_owners.deep_view() =~~= kind_avatars(
                    rec@.owners.take(k as int),
                    self@.identities,
                    true,
                ),
                team_owners.deep_view() =~~= kind_avatars(
                    rec@.owners.take(k as int),
                    self@.identities,
                    false,
                ),
            decreases rec.owners@.len() - k,
        {
            proof {
                assert(rec@.owners.take(k + 1).drop_last() =~= rec@.owners.take(k as int));
                assert(rec@.owners.take(k + 1).last() == rec@.owners[k as int]);
            }
            let owner = rec.owners[k];
            match self.find_identity_index(owner) {
                Some(j) => {
                    proof {
                        lemma_find_identity_props(self@.identities, owner);
                    }
                    match &self.identities[j].avatar {
                        Some(a) => {
                            let mut url = a.clone();
                            url.append("&s=70");
                            let avatar = TypstString::escape(url.as_str());
                            match owner {
                                OwnerId::User(_) => {
                                    user_owners.push(UserCrateOwner { avatar });
                                },
                                OwnerId::Team(_) => {
                                    team_owners.push(TeamCrateOwner { avatar });
                                },
                            }
                        },
                        None => {},
                    }
                },
                None => {},
            }
            proof {
                assert(user_owners.deep_view() =~~= kind_avatars(
                    rec@.owners.take(k + 1),
                    self@.identities,
                    true,
                ));
                assert(team_owners.deep_view() =~~= kind_avatars(
                    rec@.owners.take(k + 1),
                    self@.identities,
                    false,
                ));
            }
            k = k + 1;
        }
        proof {
            assert(rec@.owners.take(rec.owners@.len() as int) =~= rec@.owners);
        }
        if user_owners.len() > MAX_OWNERS_SHOWN {
            user_owners.truncate(MAX_OWNERS_SHOWN);
        }
        if team_owners.len() > MAX_OWNERS_SHOWN {
            team_owners.truncate(MAX_OWNERS_SHOWN);
        }
        proof {
            assert(user_owners.deep_view() =~~= capped_owners(
                kind_avatars(rec@.owners, self@.identities, true),
            ));
            assert(team_owners.deep_view() =~~= capped_owners(
                kind_avatars(rec@.owners, self@.identities, false),
            ));
        }
        CrateData { name, description, team_owners, user_owners, license }
    }

    /// Look the crate up by name and assemble its render-ready record;
    /// an absent name — unknown, or filtered out at load time — fails
    /// with [`Error::NotFound`], and nothing else fails.
    pub fn augment_crate_spec(&self, name: CrateName) -> (r: Result<CrateData, Error>)
        ensures
            r is Ok <==> contains_crate(self@, name@),
            r is Err ==> r->Err_0 is NotFound,
            r is Ok ==> is_augmented(
                self@.items[find_item_by_name(self@.items, name@)],
                self@.identities,
                r->Ok_0,
            ),
            r is Ok ==> r->Ok_0.name@ == name@,
    {
        match self.find_index_by_name(name.inner()) {
            Some(i) => {
                proof {
                    lemma_find_item_by_name_props(self@.items, name@);
                    assert(contains_crate(self@, name@));
                }
                let data = self.build_data(i, name);
                Ok(data)
            },
            None => {
                proof {
                    lemma_find_item_by_name_props(self@.items, name@);
                }
                Err(Error::NotFound)
            },
        }
    }

    /// Whether every retained record's name is a valid crate name — the
    /// precondition of [`augment_preloaded`](Self::augment_preloaded).
    pub fn all_names_valid(&self) -> (b: bool)
        ensures
            b == (forall|i: int|
                0 <= i < self@.items.len() ==> is_valid_crate_name(
                    (#[trigger] self@.items[i]).name,
                )),
    {
        let mut i: usize = 0;
        while i < self.items.len()
            invariant
                i <= self@.items.len(),
                self@.items.len() == self.items@.len(),
                forall|j: int| 0 <= j < i ==> is_valid_crate_name((#[trigger] self@.items[j]).name),
            decreases self.items@.len() - i,
        {
            if CrateName::from_str(self.items[i].name.as_str()).is_err() {
                proof {
                    assert(!is_valid_crate_name((self@.items[i as int]).name));
                }
                return false;
            }
            i = i + 1;
        }
        true
    }

    /// The render-ready records of every retained item, in the index's
    /// traversal order — the full-catalog flows' counterpart of
    /// [`augment_crate_spec`](Self::augment_crate_spec).
    pub fn augment_preloaded(&self) -> (r: Vec<CrateData>)
        requires
            forall|i: int|
                0 <= i < self@.items.len() ==> is_valid_crate_name(
                    (#[trigger] self@.items[i]).name,
                ),
        ensures
            r@.len() == self@.items.len(),
            forall|i: int|
                0 <= i < r@.len() ==> is_augmented(
                    self@.items[i],
                    self@.identities,
                    #[trigger] r@[i],
                ),
    {
        let mut out: Vec<CrateData> = Vec::new();
        let mut i: usize = 0;
        while i < self.items.len()
            invariant
                i <= self@.items.len(),
                self@.items.len() == self.items@.len(),
                out@.len() == i,
                forall|j: int|
                    0 <= j < self@.items.len() ==> is_valid_crate_name(
                        (#[trigger] self@.items[j]).name,
                    ),
                forall|j: int|
                    0 <= j < i ==> is_augmented(
                        self@.items[j],
                        self@.identities,
                        #[trigger] out@[j],
                    ),
            decreases self.items@.len() - i,
        {
            let name = match CrateName::from_str(self.items[i].name.as_str()) {
                Ok(name) => name,
                Err(_) => {
                    proof {
                        assert(is_valid_crate_name(self@.items[i as int].name));
                        assert(false);
                    }
                    return out;
                },
            };
            let data = self.build_data(i, name);
            out.push(data);
            i = i + 1;
        }
        out
    }
}

/// As [`lemma_find_item_props`], for `find_item_by_name`.
pub proof fn lemma_find_item_by_name_props(items: Seq<ItemModel>, name: Seq<char>)
    ensures
        find_item_by_name(items, name) >= 0 ==> {
            &&& find_item_by_name(items, name) < items.len()
            &&& items[find_item_by_name(items, name)].name == name
        },
        find_item_by_name(items, name) == -1 ==> forall|j: int|
            0 <= j < items.len() ==> items[j].name != name,
        find_item_by_name(items, name) >= 0 || find_item_by_name(items, name) == -1,
    decreases items.len(),
{
    if items.len() > 0 && items[0].name != name {
        let rest = items.drop_first();
        lemma_find_item_by_name_props(rest, name);
        let r = find_item_by_name(rest, name);
        if r >= 0 {
            assert(items[r + 1] == rest[r]);
        } else {
            assert forall|j: int| 0 <= j < items.len() implies items[j].name != name by {
                if j > 0 {
                    assert(items[j] == rest[j - 1]);
                }
            }
        }
    }
}


/// The names of the index's records, in order.
pub open spec fn item_names(db: DbModel) -> Seq<Seq<char>> {
    db.items.map_values(|it: ItemModel| it.name)
}

/// The names of the rows a policy retains, in row order.
pub open spec fn selected_names(rows: Seq<CrateRow>, f: LoadFilter) -> Seq<Seq<char>>
    decreases rows.len(),
{
    if rows.len() == 0 {
        Seq::empty()
    } else {
        let rest = selected_names(rows.drop_last(), f);
        if f.spec_matches(rows.last().name@) {
            rest.push(rows.last().name@)
        } else {
            rest
        }
    }
}

proof fn lemma_items_pass_names(db: DbModel, rows: Seq<CrateRow>, f: LoadFilter)
    ensures
        item_names(apply_crate_rows(db, rows, f)) == item_names(db) + selected_names(rows, f),
        apply_crate_rows(db, rows, f).identities == db.identities,
    decreases rows.len(),
{
    if rows.len() == 0 {
        assert(item_names(db) + selected_names(rows, f) =~= item_names(db));
    } else {
        let rest = rows.drop_last();
        lemma_items_pass_names(db, rest, f);
        let prev = apply_crate_rows(db, rest, f);
        let row = rows.last();
        assert(apply_crate_rows(db, rows, f) == apply_crate_row(prev, row, f));
        if f.spec_matches(row.name@) {
            assert(selected_names(rows, f) == selected_names(rest, f).push(row.name@));
            assert(item_names(apply_crate_row(prev, row, f)) =~= item_names(prev).push(row.name@));
            assert(item_names(prev).push(row.name@) =~= item_names(db) + selected_names(rows, f));
        } else {
            assert(selected_names(rows, f) == selected_names(rest, f));
            assert(apply_crate_row(prev, row, f) == prev);
        }
    }
}

proof fn lemma_owner_rows_names(db: DbModel, rows: Seq<CrateOwnerRow>)
    ensures
        item_names(apply_crate_owner_rows(db, rows)) == item_names(db),
    decreases rows.len(),
{
    if rows.len() > 0 {
        lemma_owner_rows_names(db, rows.drop_last());
        let prev = apply_crate_owner_rows(db, rows.drop_last());
        let row = rows.last();
        if find_item(prev.items, row.crate_id) >= 0 {
            lemma_find_item_props(prev.items, row.crate_id);
        }
        assert(item_names(apply_crate_owner_row(prev, row)) =~= item_names(prev));
    }
}

proof fn lemma_team_rows_names(db: DbModel, rows: Seq<TeamRow>)
    ensures
        apply_team_rows(db, rows).items == db.items,
    decreases rows.len(),
{
    if rows.len() > 0 {
        lemma_team_rows_names(db, rows.drop_last());
    }
}

proof fn lemma_user_rows_names(db: DbModel, rows: Seq<UserRow>)
    ensures
        apply_user_rows(db, rows).items == db.items,
    decreases rows.len(),
{
    if rows.len() > 0 {
        lemma_user_rows_names(db, rows.drop_last());
    }
}

proof fn lemma_default_version_rows_names(db: DbModel, rows: Seq<DefaultVersionRow>)
    ensures
        item_names(apply_default_version_rows(db, rows)) == item_names(db),
    decreases rows.len(),
{
    if rows.len() > 0 {
        lemma_default_version_rows_names(db, rows.drop_last());
        let prev = apply_default_version_rows(db, rows.drop_last());
        let row = rows.last();
        if find_item(prev.items, row.crate_id) >= 0 {
            lemma_find_item_props(prev.items, row.crate_id);
        }
        assert(item_names(apply_default_version_row(prev, row)) =~= item_names(prev));
    }
}

proof fn lemma_version_rows_names(db: DbModel, rows: Seq<VersionRow>)
    ensures
        item_names(apply_version_rows(db, rows)) == item_names(db),
    decreases rows.len(),
{
    if rows.len() > 0 {
        lemma_version_rows_names(db, rows.drop_last());
        let prev = apply_version_rows(db, rows.drop_last());
        let row = rows.last();
        if find_item(prev.items, row.crate_id) >= 0 {
            lemma_find_item_props(prev.items, row.crate_id);
        }
        assert(item_names(apply_version_row(prev, row)) =~= item_names(prev));
    }
}

/// Selection soundness: the catalog index built from an archive under a
/// policy holds exactly the rows of the archive's items table whose name
/// the policy accepts — in row order, and zero others. The later passes
/// change no record's name and add no record.
pub proof fn lemma_selection_soundness(tables: ArchiveTables, filter: LoadFilter)
    ensures
        item_names(load_model(tables, filter)) == selected_names(tables.crates@, filter),
{
    let db1 = apply_crate_rows(empty_db(), tables.crates@, filter);
    let db2 = apply_crate_owner_rows(db1, tables.crate_owners@);
    let db3 = apply_team_rows(db2, tables.teams@);
    let db4 = apply_user_rows(db3, tables.users@);
    let db5 = apply_default_version_rows(db4, tables.default_versions@);
    lemma_items_pass_names(empty_db(), tables.crates@, filter);
    assert(item_names(empty_db()) + selected_names(tables.crates@, filter) =~= selected_names(
        tables.crates@,
        filter,
    ));
    lemma_owner_rows_names(db1, tables.crate_owners@);
    lemma_team_rows_names(db2, tables.teams@);
    lemma_user_rows_names(db3, tables.users@);
    assert(item_names(db4) == item_names(db2));
    lemma_default_version_rows_names(db4, tables.default_versions@);
    lemma_version_rows_names(db5, tables.versions@);
}

proof fn lemma_selected_names_membership(rows: Seq<CrateRow>, f: LoadFilter, name: Seq<char>)
    ensures
        (exists|j: int| 0 <= j < selected_names(rows, f).len() && selected_names(rows, f)[j]
            == name) <==> (exists|i: int|
            0 <= i < rows.len() && (#[trigger] rows[i]).name@ == name && f.spec_matches(name)),
    decreases rows.len(),
{
    let sel = selected_names(rows, f);
    if rows.len() == 0 {
    } else {
        let rest = rows.drop_last();
        lemma_selected_names_membership(rest, f, name);
        let sel_rest = selected_names(rest, f);
        assert(forall|i: int| 0 <= i < rest.len() ==> #[trigger] rest[i] == rows[i]);
        if exists|j: int| 0 <= j < sel.len() && sel[j] == name {
            let j = choose|j: int| 0 <= j < sel.len() && sel[j] == name;
            if f.spec_matches(rows.last().name@) {
                if j < sel_rest.len() {
                    assert(sel_rest[j] == name);
                } else {
                    assert(rows[rows.len() - 1].name@ == name);
                }
            } else {
                assert(sel_rest[j] == name);
            }
        }
        if exists|i: int| 0 <= i < rows.len() && (#[trigger] rows[i]).name@ == name
            && f.spec_matches(name) {
            let i = choose|i: int|
                0 <= i < rows.len() && (#[trigger] rows[i]).name@ == name && f.spec_matches(name);
            if i < rows.len() - 1 {
                assert(rest[i].name@ == name);
                let j = choose|j: int| 0 <= j < sel_rest.len() && sel_rest[j] == name;
                assert(sel[j] == name);
            } else {
                assert(rows.last().name@ == name);
                assert(sel[sel.len() - 1] == name);
            }
        }
    }
}

/// Selection soundness, membership form: a name is in the index exactly
/// when some row of the items table bears it and the policy accepts it.
pub proof fn lemma_selection_soundness_contains(
    tables: ArchiveTables,
    filter: LoadFilter,
    name: Seq<char>,
)
    ensures
        contains_crate(load_model(tables, filter), name) <==> (exists|i: int|
            0 <= i < tables.crates@.len() && (#[trigger] tables.crates@[i]).name@ == name
                && filter.spec_matches(name)),
{
    lemma_selection_soundness(tables, filter);
    lemma_selected_names_membership(tables.crates@, filter, name);
    let db = load_model(tables, filter);
    let sel = selected_names(tables.crates@, filter);
    if contains_crate(db, name) {
        let i = choose|i: int| 0 <= i < db.items.len() && (#[trigger] db.items[i]).name == name;
        assert(item_names(db)[i] == name);
    }
    if exists|j: int| 0 <= j < sel.len() && sel[j] == name {
        let j = choose|j: int| 0 <= j < sel.len() && sel[j] == name;
        assert(db.items[j].name == name);
    }
}

/// The owner is referenced by some retained record.
pub open spec fn owner_referenced(db: DbModel, owner: OwnerId) -> bool {
    exists|i: int, k: int|
        0 <= i < db.items.len() && 0 <= k < db.items[i].owners.len() && (#[trigger] db.items[i].owners[k])
            == owner
}

/// Every registered identity is referenced by some retained record — the
/// memory-bounding invariant behind reference pruning.
pub open spec fn identities_referenced(db: DbModel) -> bool {
    forall|j: int|
        0 <= j < db.identities.len() ==> owner_referenced(
            db,
            (#[trigger] db.identities[j]).owner_id,
        )
}

proof fn lemma_owner_rows_referenced(db: DbModel, rows: Seq<CrateOwnerRow>)
    requires
        identities_referenced(db),
    ensures
        identities_referenced(apply_crate_owner_rows(db, rows)),
    decreases rows.len(),
{
    if rows.len() > 0 {
        lemma_owner_rows_referenced(db, rows.drop_last());
        let prev = apply_crate_owner_rows(db, rows.drop_last());
        let row = rows.last();
        let next = apply_crate_owner_row(prev, row);
        let f = find_item(prev.items, row.crate_id);
        if f >= 0 {
            lemma_find_item_props(prev.items, row.crate_id);
            assert forall|j: int| 0 <= j < next.identities.len() implies owner_referenced(
                next,
                (next.identities[j]).owner_id,
            ) by {
                if j < prev.identities.len() {
                    let o = prev.identities[j].owner_id;
                    let (i0, k0) = choose|i0: int, k0: int|
                        0 <= i0 < prev.items.len() && 0 <= k0 < prev.items[i0].owners.len()
                            && (#[trigger] prev.items[i0].owners[k0]) == o;
                    assert(next.items[i0].owners[k0] == o);
                } else {
                    assert(next.identities[j].owner_id == row.owner_id);
                    assert(next.items[f].owners[next.items[f].owners.len() - 1] == row.owner_id);
                }
            }
        }
    }
}

proof fn lemma_team_rows_referenced(db: DbModel, rows: Seq<TeamRow>)
    requires
        identities_referenced(db),
    ensures
        identities_referenced(apply_team_rows(db, rows)),
    decreases rows.len(),
{
    if rows.len() > 0 {
        lemma_team_rows_referenced(db, rows.drop_last());
        let prev = apply_team_rows(db, rows.drop_last());
        let row = rows.last();
        let next = apply_team_row(prev, row);
        let f = find_identity(prev.identities, OwnerId::Team(row.id));
        if f >= 0 {
            lemma_find_identity_props(prev.identities, OwnerId::Team(row.id));
            assert forall|j: int| 0 <= j < next.identities.len() implies owner_referenced(
                next,
                (next.identities[j]).owner_id,
            ) by {
                assert(next.identities[j].owner_id == prev.identities[j].owner_id);
                let o = prev.identities[j].owner_id;
                let (i0, k0) = choose|i0: int, k0: int|
                    0 <= i0 < prev.items.len() && 0 <= k0 < prev.items[i0].owners.len()
                        && (#[trigger] prev.items[i0].owners[k0]) == o;
                assert(next.items[i0].owners[k0] == o);
            }
        }
    }
}

proof fn lemma_user_rows_referenced(db: DbModel, rows: Seq<UserRow>)
    requires
        identities_referenced(db),
    ensures
        identities_referenced(apply_user_rows(db, rows)),
    decreases rows.len(),
{
    if rows.len() > 0 {
        lemma_user_rows_referenced(db, rows.drop_last());
        let prev = apply_user_rows(db, rows.drop_last());
        let row = rows.last();
        let next = apply_user_row(prev, row);
        let f = find_identity(prev.identities, OwnerId::User(row.id));
        if f >= 0 {
            lemma_find_identity_props(prev.identities, OwnerId::User(row.id));
            assert forall|j: int| 0 <= j < next.identities.len() implies owner_referenced(
                next,
                (next.identities[j]).owner_id,
            ) by {
                assert(next.identities[j].owner_id == prev.identities[j].owner_id);
                let o = prev.identities[j].owner_id;
                let (i0, k0) = choose|i0: int, k0: int|
                    0 <= i0 < prev.items.len() && 0 <= k0 < prev.items[i0].owners.len()
                        && (#[trigger] prev.items[i0].owners[k0]) == o;
                assert(next.items[i0].owners[k0] == o);
            }
        }
    }
}

proof fn lemma_default_version_rows_referenced(db: DbModel, rows: Seq<DefaultVersionRow>)
    requires
        identities_referenced(db),
    ensures
        identities_referenced(apply_default_version_rows(db, rows)),
    decreases rows.len(),
{
    if rows.len() > 0 {
        lemma_default_version_rows_referenced(db, rows.drop_last());
        let prev = apply_default_version_rows(db, rows.drop_last());
        let row = rows.last();
        let next = apply_default_version_row(prev, row);
        let f = find_item(prev.items, row.crate_id);
        if f >= 0 {
            lemma_find_item_props(prev.items, row.crate_id);
            assert forall|j: int| 0 <= j < next.identities.len() implies owner_referenced(
                next,
                (next.identities[j]).owner_id,
            ) by {
                let o = prev.identities[j].owner_id;
                let (i0, k0) = choose|i0: int, k0: int|
                    0 <= i0 < prev.items.len() && 0 <= k0 < prev.items[i0].owners.len()
                        && (#[trigger] prev.items[i0].owners[k0]) == o;
                assert(next.items[i0].owners == prev.items[i0].owners);
                assert(next.items[i0].owners[k0] == o);
            }
        }
    }
}

proof fn lemma_version_rows_referenced(db: DbModel, rows: Seq<VersionRow>)
    requires
        identities_referenced(db),
    ensures
        identities_referenced(apply_version_rows(db, rows)),
    decreases rows.len(),
{
    if rows.len() > 0 {
        lemma_version_rows_referenced(db, rows.drop_last());
        let prev = apply_version_rows(db, rows.drop_last());
        let row = rows.last();
        let next = apply_version_row(prev, row);
        let f = find_item(prev.items, row.crate_id);
        if f >= 0 && prev.items[f].default_version == Some(row.id) {
            lemma_find_item_props(prev.items, row.crate_id);
            assert forall|j: int| 0 <= j < next.identities.len() implies owner_referenced(
                next,
                (next.identities[j]).owner_id,
            ) by {
                let o = prev.identities[j].owner_id;
                let (i0, k0) = choose|i0: int, k0: int|
                    0 <= i0 < prev.items.len() && 0 <= k0 < prev.items[i0].owners.len()
                        && (#[trigger] prev.items[i0].owners[k0]) == o;
                assert(next.items[i0].owners == prev.items[i0].owners);
                assert(next.items[i0].owners[k0] == o);
            }
        }
    }
}

/// Reference pruning: the index built from any archive under any policy
/// registers an owner identity only for owners referenced by a retained
/// record — owner rows of filtered-out items leave no trace. (A version
/// row's license can only ever live inside a retained record, so those
/// leave no trace either.)
pub proof fn lemma_reference_pruning(tables: ArchiveTables, filter: LoadFilter)
    ensures
        identities_referenced(load_model(tables, filter)),
{
    let db1 = apply_crate_rows(empty_db(), tables.crates@, filter);
    let db2 = apply_crate_owner_rows(db1, tables.crate_owners@);
    let db3 = apply_team_rows(db2, tables.teams@);
    let db4 = apply_user_rows(db3, tables.users@);
    let db5 = apply_default_version_rows(db4, tables.default_versions@);
    lemma_items_pass_names(empty_db(), tables.crates@, filter);
    assert(db1.identities.len() == 0);
    assert(identities_referenced(db1));
    lemma_owner_rows_referenced(db1, tables.crate_owners@);
    lemma_team_rows_referenced(db2, tables.teams@);
    lemma_user_rows_referenced(db3, tables.users@);
    lemma_default_version_rows_referenced(db4, tables.default_versions@);
    lemma_version_rows_referenced(db5, tables.versions@);
}

/// The two policies accept exactly the same names.
pub open spec fn equivalent_filters(f1: LoadFilter, f2: LoadFilter) -> bool {
    forall|name: Seq<char>| f1.spec_matches(name) == f2.spec_matches(name)
}

proof fn lemma_items_pass_filter_ext(db: DbModel, rows: Seq<CrateRow>, f1: LoadFilter, f2: LoadFilter)
    requires
        equivalent_filters(f1, f2),
    ensures
        apply_crate_rows(db, rows, f1) == apply_crate_rows(db, rows, f2),
    decreases rows.len(),
{
    if rows.len() > 0 {
        lemma_items_pass_filter_ext(db, rows.drop_last(), f1, f2);
    }
}

/// Idempotent re-load: two loads that saw the same table rows under
/// policies accepting the same names build indexes with identical
/// contents — the same records (identifiers, descriptions, owner lists,
/// licenses) and the same identities, whatever values the pass machinery
/// rebuilt in between.
pub proof fn lemma_idempotent_reload(
    t1: ArchiveTables,
    t2: ArchiveTables,
    f1: LoadFilter,
    f2: LoadFilter,
)
    requires
        t1.crates@ == t2.crates@,
        t1.crate_owners@ == t2.crate_owners@,
        t1.teams@ == t2.teams@,
        t1.users@ == t2.users@,
        t1.default_versions@ == t2.default_versions@,
        t1.versions@ == t2.versions@,
        equivalent_filters(f1, f2),
    ensures
        load_model(t1, f1) == load_model(t2, f2),
{
    lemma_items_pass_filter_ext(empty_db(), t1.crates@, f1, f2);
}

} // verus!
