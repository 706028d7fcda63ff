//! Release bookkeeping: sizing, asset selection, the version list and the
//! activation record.  The HTTP fetching, the archive handling and the
//! on-disk checks stay with the caller; these functions carry the rules.
use crate::text::{contains_ic, spec_contains_ic, spec_dec, u64_to_dec};
use crate::version::{ActiveFrp, FrpVersion};
use vstd::prelude::*;

verus! {

/// `1024^idx`, the divisor of one size unit.
pub open spec fn spec_pow1024(idx: nat) -> nat {
    if idx == 0 {
        1
    } else if idx == 1 {
        0x400
    } else if idx == 2 {
        0x100000
    } else if idx == 3 {
        0x40000000
    } else if idx == 4 {
        0x10000000000
    } else {
        0x4000000000000
    }
}

/// The unit a size this large is shown in: the largest power of 1024 that
/// fits, capped at petabytes.
pub open spec fn spec_size_idx(n: nat) -> nat {
    if n < 0x400 {
        0
    } else if n < 0x100000 {
        1
    } else if n < 0x40000000 {
        2
    } else if n < 0x10000000000 {
        3
    } else if n < 0x4000000000000 {
        4
    } else {
        5
    }
}

/// The unit suffix.
pub open spec fn spec_unit(idx: nat) -> Seq<char> {
    if idx == 0 {
        "B"@
    } else if idx == 1 {
        "KB"@
    } else if idx == 2 {
        "MB"@
    } else if idx == 3 {
        "GB"@
    } else if idx == 4 {
        "TB"@
    } else {
        "PB"@
    }
}

/// How many fraction digits are shown: none for plain bytes, two while the
/// value is below 10, one below 100, none from there on.
pub open spec fn spec_frac_digits(n: nat, idx: nat) -> nat {
    if idx == 0 {
        0
    } else if n < 10 * spec_pow1024(idx) {
        2
    } else if n < 100 * spec_pow1024(idx) {
        1
    } else {
        0
    }
}

/// `10^f` for the fraction width.
pub open spec fn spec_pow10(f: nat) -> nat {
    if f == 0 {
        1
    } else if f == 1 {
        10
    } else {
        100
    }
}

/// The value scaled to `f` fraction digits and rounded half-up, saturated
/// into the `u64` range.
pub open spec fn spec_size_scaled(n: nat, idx: nat, f: nat) -> nat {
    let exact = (2 * n * spec_pow10(f) + spec_pow1024(idx)) / (2 * spec_pow1024(idx));
    if exact > u64::MAX {
        u64::MAX as nat
    } else {
        exact
    }
}

/// The rendered size: the rounded value with its fraction digits and unit.
pub open spec fn spec_format_size(n: nat) -> Seq<char> {
    if n == 0 {
        "0 B"@
    } else {
        let idx = spec_size_idx(n);
        let f = spec_frac_digits(n, idx);
        let scaled = spec_size_scaled(n, idx, f);
        let whole = scaled / spec_pow10(f);
        let fr = scaled % spec_pow10(f);
        spec_dec(whole) + (if f == 0 {
            Seq::<char>::empty()
        } else {
            "."@ + (if f == 2 && fr < 10 {
                "0"@
            } else {
                Seq::<char>::empty()
            }) + spec_dec(fr)
        }) + " "@ + spec_unit(idx)
    }
}

/// Renders a byte count for display: `0 B`, `512 B`, `1.50 KB`, `8.61 MB`,
/// `120.3 GB` — the largest fitting unit, with more fraction digits the
/// smaller the leading value, rounded half-up.
pub fn format_size(n: u64) -> (r: String)
    ensures
        r@ == spec_format_size(n as nat),
{
    if n == 0 {
        return "0 B".to_owned();
    }
    let (idx, base, unit): (u64, u64, &'static str) = if n < 0x400 {
        (0, 1, "B")
    } else if n < 0x100000 {
        (1, 0x400, "KB")
    } else if n < 0x40000000 {
        (2, 0x100000, "MB")
    } else if n < 0x10000000000 {
        (3, 0x40000000, "GB")
    } else if n < 0x4000000000000 {
        (4, 0x10000000000, "TB")
    } else {
        (5, 0x4000000000000, "PB")
    };
    let (f, p10): (u64, u64) = if idx == 0 {
        (0, 1)
    } else if n < 10 * base {
        (2, 100)
    } else if n < 100 * base {
        (1, 10)
    } else {
        (0, 1)
    };
    assert(p10 <= 100);
    proof {
        assert((n as int) * (p10 as int) <= 0xffff_ffff_ffff_ffff * 100) by (nonlinear_arith)
            requires
                n <= 0xffff_ffff_ffff_ffff,
                0 <= p10 <= 100,
        ;
    }
    let num: u128 = (n as u128) * (p10 as u128);
    let wide: u128 = (2 * num + (base as u128)) / (2 * (base as u128));
    let scaled: u64 = if wide > u64::MAX as u128 {
        u64::MAX
    } else {
        wide as u64
    };
    proof {
        assert(idx == spec_size_idx(n as nat));
        assert(base == spec_pow1024(idx as nat));
        assert(unit@ == spec_unit(idx as nat));
        assert(f == spec_frac_digits(n as nat, idx as nat));
        assert(p10 == spec_pow10(f as nat));
        assert(num == (n as int) * (p10 as int));
        assert(2 * (num as int) == 2 * (n as int) * (p10 as int)) by (nonlinear_arith)
            requires
                num == (n as int) * (p10 as int),
        ;
        assert(wide == (2 * (n as int) * (p10 as int) + (base as int)) / (2 * (base as int)));
        assert(scaled == spec_size_scaled(n as nat, idx as nat, f as nat));
    }
    let whole = scaled / p10;
    let fr = scaled % p10;
    let mut out = u64_to_dec(whole);
    if f > 0 {
        out.append(".");
        if f == 2 && fr < 10 {
            out.append("0");
        }
        let fr_digits = u64_to_dec(fr);
        out.append(fr_digits.as_str());
    }
    out.append(" ");
    out.append(unit);
    proof {
        assert(out@ =~= spec_format_size(n as nat));
    }
    out
}

/// The asset name fits this platform: it mentions the project and carries
/// the platform tag, matched without regard to ASCII case.
pub open spec fn spec_pick_asset(name: Seq<char>, os: Seq<char>, arch: Seq<char>) -> bool {
    &&& spec_contains_ic(name, "frp"@)
    &&& if os == "macos"@ {
        if arch == "aarch64"@ {
            spec_contains_ic(name, "darwin_arm64"@)
        } else {
            spec_contains_ic(name, "darwin_amd64"@)
        }
    } else if os == "windows"@ {
        if arch == "aarch64"@ {
            spec_contains_ic(name, "windows_arm64"@)
        } else {
            spec_contains_ic(name, "windows_amd64"@)
        }
    } else if os == "linux"@ {
        if arch == "aarch64"@ {
            spec_contains_ic(name, "linux_arm64"@)
        } else {
            spec_contains_ic(name, "linux_amd64"@)
        }
    } else {
        false
    }
}

fn str_eq(a: &str, b: &str) -> (r: bool)
    ensures
        r == (a@ == b@),
{
    let x = a.to_owned();
    x.eq(&b.to_owned())
}

/// Whether a release asset is the one for this platform, named by `os` and
/// `arch` as the toolchain reports them.
pub fn pick_asset_by_name(name: &str, os: &str, arch: &str) -> (r: bool)
    ensures
        r == spec_pick_asset(name@, os@, arch@),
{
    if !contains_ic(name, "frp") {
        return false;
    }
    if str_eq(os, "macos") {
        if str_eq(arch, "aarch64") {
            contains_ic(name, "darwin_arm64")
        } else {
            contains_ic(name, "darwin_amd64")
        }
    } else if str_eq(os, "windows") {
        if str_eq(arch, "aarch64") {
            contains_ic(name, "windows_arm64")
        } else {
            contains_ic(name, "windows_amd64")
        }
    } else if str_eq(os, "linux") {
        if str_eq(arch, "aarch64") {
            contains_ic(name, "linux_arm64")
        } else {
            contains_ic(name, "linux_amd64")
        }
    } else {
        false
    }
}

/// The plain facts of one release asset, as the release listing carries
/// them.
pub struct AssetInfo {
    pub id: u64,
    pub name: String,
    pub size: u64,
    pub url: String,
    pub download_count: Option<u64>,
    pub created_at: String,
}

fn clone_string(s: &String) -> (r: String)
    ensures
        r == *s,
{
    s.clone()
}

/// The date part of a timestamp: its first ten characters (all of it when
/// shorter).
pub open spec fn spec_date_part(s: Seq<char>) -> Seq<char> {
    if s.len() <= 10 {
        s
    } else {
        s.take(10)
    }
}

/// Builds the displayed row for one selected asset.
pub fn build_version(
    version: &String,
    asset: &AssetInfo,
    exist: bool,
    active_name: Option<&String>,
) -> (r: FrpVersion)
    ensures
        r.id == asset.id,
        r.name == asset.name,
        r.size@ == spec_format_size(asset.size as nat),
        r.version == *version,
        r.created_at@ == spec_date_part(asset.created_at@),
        r.count == (match asset.download_count {
            Option::Some(c) => c,
            Option::None => 0,
        }),
        r.url == asset.url,
        r.exist == exist,
        r.active <==> (active_name matches Option::Some(a) && a@ == asset.name@),
{
    let len = asset.created_at.as_str().unicode_len();
    let upto = if len <= 10 {
        len
    } else {
        10
    };
    let created_at = asset.created_at.as_str().substring_char(0, upto).to_owned();
    let active = match active_name {
        Option::Some(a) => a.eq(&asset.name),
        Option::None => false,
    };
    FrpVersion {
        id: asset.id,
        name: clone_string(&asset.name),
        size: format_size(asset.size),
        version: clone_string(version),
        created_at,
        count: match asset.download_count {
            Option::Some(c) => c,
            Option::None => 0,
        },
        url: clone_string(&asset.url),
        exist,
        active,
    }
}

/// The first asset that fits the platform.
pub open spec fn spec_first_pick(assets: Seq<AssetInfo>, os: Seq<char>, arch: Seq<char>) -> Option<
    int,
>
    decreases assets.len(),
{
    if assets.len() == 0 {
        Option::None
    } else if spec_pick_asset(assets[0].name@, os, arch) {
        Option::Some(0)
    } else {
        match spec_first_pick(assets.skip(1), os, arch) {
            Option::Some(i) => Option::Some(i + 1),
            Option::None => Option::None,
        }
    }
}

proof fn lemma_first_pick_is(assets: Seq<AssetInfo>, os: Seq<char>, arch: Seq<char>, k: int)
    requires
        0 <= k <= assets.len(),
        forall|j: int| 0 <= j < k ==> !spec_pick_asset(#[trigger] assets[j].name@, os, arch),
        k < assets.len() ==> spec_pick_asset(assets[k].name@, os, arch),
    ensures
        k < assets.len() ==> spec_first_pick(assets, os, arch) == Option::Some(k),
        k == assets.len() ==> spec_first_pick(assets, os, arch) is None,
    decreases assets.len(),
{
    if assets.len() == 0 {
    } else if spec_pick_asset(assets[0].name@, os, arch) {
        assert(k == 0);
    } else {
        lemma_first_pick_is(assets.skip(1), os, arch, k - 1);
    }
}

/// The position of the first asset of a release that fits this platform.
pub fn select_asset(assets: &Vec<AssetInfo>, os: &str, arch: &str) -> (r: Option<usize>)
    ensures
        match r {
            Option::Some(i) => spec_first_pick(assets@, os@, arch@) == Option::Some(i as int),
            Option::None => spec_first_pick(assets@, os@, arch@) is None,
        },
{
    let n = assets.len();
    let mut i: usize = 0;
    while i < n
        invariant
            0 <= i <= n,
            n == assets@.len(),
            forall|j: int| 0 <= j < i ==> !spec_pick_asset(#[trigger] assets@[j].name@, os@, arch@),
        decreases n - i,
    {
        if pick_asset_by_name(assets[i].name.as_str(), os, arch) {
            proof {
                lemma_first_pick_is(assets@, os@, arch@, i as int);
            }
            return Option::Some(i);
        }
        i += 1;
    }
    proof {
        lemma_first_pick_is(assets@, os@, arch@, n as int);
    }
    Option::None
}

/// The first version row with this asset name.
pub open spec fn spec_first_version(s: Seq<FrpVersion>, name: Seq<char>) -> Option<int>
    decreases s.len(),
{
    if s.len() == 0 {
        Option::None
    } else if s[0].name@ == name {
        Option::Some(0)
    } else {
        match spec_first_version(s.skip(1), name) {
            Option::Some(i) => Option::Some(i + 1),
            Option::None => Option::None,
        }
    }
}

proof fn lemma_first_version_is(s: Seq<FrpVersion>, name: Seq<char>, k: int)
    requires
        0 <= k <= s.len(),
        forall|j: int| 0 <= j < k ==> (#[trigger] s[j].name)@ != name,
        k < s.len() ==> s[k].name@ == name,
    ensures
        k < s.len() ==> spec_first_version(s, name) == Option::Some(k),
        k == s.len() ==> spec_first_version(s, name) is None,
    decreases s.len(),
{
    if s.len() == 0 {
    } else if s[0].name@ == name {
        assert(k == 0);
    } else {
        lemma_first_version_is(s.skip(1), name, k - 1);
    }
}

/// How one row relates to what it was before the update.
pub open spec fn version_row_updated(
    new: FrpVersion,
    old: FrpVersion,
    at_target: bool,
    exist: Option<bool>,
    active: Option<bool>,
) -> bool {
    &&& new.id == old.id
    &&& new.name == old.name
    &&& new.size == old.size
    &&& new.version == old.version
    &&& new.created_at == old.created_at
    &&& new.count == old.count
    &&& new.url == old.url
    &&& new.exist == (match exist {
        Option::Some(e) => if at_target {
            e
        } else {
            old.exist
        },
        Option::None => old.exist,
    })
    &&& new.active == (match active {
        Option::Some(a) => if a {
            at_target
        } else if at_target {
            false
        } else {
            old.active
        },
        Option::None => old.active,
    })
}

/// The position of the first version row with this asset name.
pub fn find_version_index(versions: &Vec<FrpVersion>, name: &str) -> (r: Option<usize>)
    ensures
        match r {
            Option::Some(i) => spec_first_version(versions@, name@) == Option::Some(i as int) && i
                < versions@.len(),
            Option::None => spec_first_version(versions@, name@) is None,
        },
{
    let name_string = name.to_owned();
    let n = versions.len();
    let mut i: usize = 0;
    while i < n
        invariant
            0 <= i <= n,
            n == versions@.len(),
            name_string@ == name@,
            forall|j: int| 0 <= j < i ==> (#[trigger] versions@[j].name)@ != name@,
        decreases n - i,
    {
        if versions[i].name.eq(&name_string) {
            proof {
                lemma_first_version_is(versions@, name@, i as int);
            }
            return Option::Some(i);
        }
        i += 1;
    }
    proof {
        lemma_first_version_is(versions@, name@, n as int);
    }
    Option::None
}

/// A row with its active flag replaced.
pub open spec fn with_active(v: FrpVersion, b: bool) -> FrpVersion {
    FrpVersion { active: b, ..v }
}

/// Updates the stored flags of the named version: its presence on disk,
/// and whether it is active — activating one version deactivates every
/// other.  A name that is not listed changes nothing.
pub fn apply_version_update(
    versions: &mut Vec<FrpVersion>,
    name: &str,
    exist: Option<bool>,
    active: Option<bool>,
) -> (r: ())
    ensures
        final(versions)@.len() == old(versions)@.len(),
        match spec_first_version(old(versions)@, name@) {
            Option::None => final(versions)@ == old(versions)@,
            Option::Some(idx) => forall|i: int|
                0 <= i < old(versions)@.len() ==> version_row_updated(
                    #[trigger] final(versions)@[i],
                    old(versions)@[i],
                    i == idx,
                    exist,
                    active,
                ),
        },
{
    let n = versions.len();
    let idx_found = find_version_index(versions, name);
    let idx = match idx_found {
        Option::Some(idx) => idx,
        Option::None => {
            return ;
        },
    };
    match exist {
        Option::Some(e) => {
            let row = vstd::std_specs::vec::vec_index_mut(versions, idx);
            row.exist = e;
        },
        Option::None => (),
    }
    let ghost mid = versions@;
    match active {
        Option::Some(a) => {
            if a {
                let mut j: usize = 0;
                while j < n
                    invariant
                        0 <= j <= n,
                        n == versions@.len(),
                        mid.len() == n,
                        idx < n,
                        forall|m: int|
                            0 <= m < j ==> #[trigger] versions@[m] == with_active(
                                mid[m],
                                m == idx,
                            ),
                        forall|m: int| j <= m < n ==> #[trigger] versions@[m] == mid[m],
                    decreases n - j,
                {
                    let row = vstd::std_specs::vec::vec_index_mut(versions, j);
                    row.active = j == idx;
                    j += 1;
                }
            } else {
                let row = vstd::std_specs::vec::vec_index_mut(versions, idx);
                row.active = false;
            }
        },
        Option::None => (),
    }
    proof {
        assert forall|i: int| 0 <= i < old(versions)@.len() implies version_row_updated(
            #[trigger] versions@[i],
            old(versions)@[i],
            i == idx,
            exist,
            active,
        ) by {
            assert(mid[i] == if exist is Some && i == idx {
                FrpVersion { exist: exist->Some_0, ..old(versions)@[i] }
            } else {
                old(versions)@[i]
            });
        }
    }
}

/// The timestamp and file-system free core of an activation: the record the
/// settings keep for the activated version.
pub fn activate_record(
    name: &String,
    archive_path: String,
    unpack_dir: String,
    exe_path: String,
) -> (r: ActiveFrp)
    ensures
        r.name == *name,
        r.archive_path == archive_path,
        r.unpack_dir == unpack_dir,
        r.exe_path == exe_path,
{
    ActiveFrp {
        name: clone_string(name),
        archive_path,
        unpack_dir,
        exe_path,
        activated_at: rfc3339_now(),
    }
}

/// Relies on `chrono::Utc::now().to_rfc3339()`: the current wall-clock
/// time rendered as an RFC 3339 timestamp.  The value depends on the
/// clock, so nothing is promised of it.
#[verifier::external_body]
fn rfc3339_now() -> (r: String)
    ensures
        true,
{
    chrono::Utc::now().to_rfc3339()
}

/// Clears the activation record when it names this version; reports
/// whether it did (so the caller knows to persist the change).
pub fn clear_active_if_matches(active: &mut Option<ActiveFrp>, name: &str) -> (cleared: bool)
    ensures
        cleared == ((*old(active)) matches Option::Some(a) && a.name@ == name@),
        cleared ==> (*final(active)) is None,
        !cleared ==> *final(active) == *old(active),
{
    let matches_name = match active.as_ref() {
        Option::Some(a) => a.name.eq(&name.to_owned()),
        Option::None => false,
    };
    if matches_name {
        *active = Option::None;
        true
    } else {
        false
    }
}

/// The deactivate/delete guard: the managed process must be stopped first
/// exactly when the version being removed is the active one and something
/// is running.
pub fn should_stop_running(active: &Option<ActiveFrp>, running: bool, name: &str) -> (r: bool)
    ensures
        r == (running && ((*active) matches Option::Some(a) && a.name@ == name@)),
{
    if !running {
        return false;
    }
    match active.as_ref() {
        Option::Some(a) => a.name.eq(&name.to_owned()),
        Option::None => false,
    }
}

} // verus!
