//! The operating system images on offer: the builds of the latest Arcader
//! OS release that GitHub describes.
use vstd::prelude::*;

use crate::text::{chars_of, concat, opt_view, same, string_of};

verus! {

/// One image of the operating system to offer.
pub struct OsBuild {
    pub arch: String,
    pub label: String,
    pub url: String,
}

/// The operating system release on offer.
pub struct OsInfo {
    pub name: String,
    pub version: String,
    pub builds: Vec<OsBuild>,
}

/// An asset of a release: its `name` and `browser_download_url` members
/// where they are strings.
pub struct ReleaseAsset {
    pub name: Option<String>,
    pub url: Option<String>,
}

/// A release as GitHub describes it: its `tag_name` where it is a string,
/// and its `assets` where they form an array.
pub struct ReleaseRecord {
    pub tag_name: Option<String>,
    pub assets: Option<Vec<ReleaseAsset>>,
}

/// The content of a [`ReleaseAsset`].
pub struct AssetModel {
    pub name: Option<Seq<char>>,
    pub url: Option<Seq<char>>,
}

/// The content of a [`ReleaseRecord`].
pub struct ReleaseModel {
    pub tag_name: Option<Seq<char>>,
    pub assets: Option<Seq<AssetModel>>,
}

impl View for ReleaseAsset {
    type V = AssetModel;

    open spec fn view(&self) -> AssetModel {
        AssetModel { name: opt_view(self.name), url: opt_view(self.url) }
    }
}

pub open spec fn asset_views(v: Seq<ReleaseAsset>) -> Seq<AssetModel> {
    v.map_values(|a: ReleaseAsset| a@)
}

impl View for ReleaseRecord {
    type V = ReleaseModel;

    open spec fn view(&self) -> ReleaseModel {
        ReleaseModel {
            tag_name: opt_view(self.tag_name),
            assets: match self.assets {
                Some(a) => Some(asset_views(a@)),
                None => None,
            },
        }
    }
}

/// What `serde_json` makes of GitHub's answer: the text of its error when
/// it is not JSON.
pub uninterp spec fn release_json(body: Seq<char>) -> Result<ReleaseModel, Seq<char>>;

/// `serde_json::from_str::<serde_json::Value>` (its error shown with
/// `Display`), then `get` of `tag_name` with `as_str` and of `assets` with
/// `as_array`, and for each asset `get` of `name` and
/// `browser_download_url` with `as_str`; the contract claims only that the
/// result is what [`release_json`] names for the text.
#[verifier::external_body]
fn decode_release(body: &str) -> (res: Result<ReleaseRecord, String>)
    ensures
        match res {
            Ok(r) => release_json(body@) == Ok::<ReleaseModel, Seq<char>>(r@),
            Err(m) => release_json(body@) == Err::<ReleaseModel, Seq<char>>(m@),
        },
{
    let v: serde_json::Value = match serde_json::from_str(body) { Ok(v) => v, Err(e) => return Err(e.to_string()) };
    let text = |d: &serde_json::Value, k: &str| d.get(k).and_then(|m| m.as_str()).map(String::from);
    Ok(ReleaseRecord { tag_name: text(&v, "tag_name"), assets: v.get("assets").and_then(|a| a.as_array()).map(
        |a| a.iter().map(|x| ReleaseAsset { name: text(x, "name"), url: text(x, "browser_download_url") }).collect(),
    ) })
}

/// The builds offered, each with its architecture, its label and the file
/// name of its image among a release's assets.
pub open spec fn os_assets() -> Seq<(Seq<char>, Seq<char>, Seq<char>)> {
    seq![
        ("amd64"@, "64-bit"@, "arcader-kiosk-amd64.iso"@),
        ("i386"@, "32-bit"@, "arcader-kiosk-i386.iso"@),
    ]
}

/// The download address of the first asset named `name`, if that asset has
/// one.
pub open spec fn asset_url_spec(assets: Seq<AssetModel>, name: Seq<char>) -> Option<Seq<char>>
    decreases assets.len(),
{
    if assets.len() == 0 {
        None
    } else if assets[0].name == Some(name) {
        assets[0].url
    } else {
        asset_url_spec(assets.drop_first(), name)
    }
}

pub fn asset_url(assets: &Vec<ReleaseAsset>, name: &str) -> (res: Option<String>)
    ensures
        opt_view(res) == asset_url_spec(asset_views(assets@), name@),
{
    let want = chars_of(name);
    let ghost av = asset_views(assets@);
    let mut i: usize = 0;
    proof {
        assert(av.skip(0) =~= av);
    }
    while i < assets.len()
        invariant
            i <= assets.len(),
            av == asset_views(assets@),
            want@ == name@,
            asset_url_spec(av, name@) == asset_url_spec(av.skip(i as int), name@),
        decreases assets.len() - i,
    {
        let ghost t = av.skip(i as int);
        proof {
            assert(t[0] == assets@[i as int]@);
            assert(t.drop_first() =~= av.skip(i + 1));
        }
        match &assets[i].name {
            Some(n) => {
                if same(&chars_of(n.as_str()), &want) {
                    return match &assets[i].url {
                        Some(u) => Some(u.clone()),
                        None => None,
                    };
                }
            },
            None => {},
        }
        i = i + 1;
    }
    None
}

/// The builds of the offered architectures that the assets have images for,
/// in the order of [`os_assets`].
pub open spec fn builds_spec(assets: Seq<AssetModel>, offered: Seq<(Seq<char>, Seq<char>, Seq<char>)>) -> Seq<(Seq<char>, Seq<char>, Seq<char>)>
    decreases offered.len(),
{
    if offered.len() == 0 {
        Seq::empty()
    } else {
        let rest = builds_spec(assets, offered.drop_last());
        let (arch, label, file) = offered.last();
        match asset_url_spec(assets, file) {
            Some(url) => rest.push((arch, label, url)),
            None => rest,
        }
    }
}

pub open spec fn build_views(v: Seq<OsBuild>) -> Seq<(Seq<char>, Seq<char>, Seq<char>)> {
    v.map_values(|b: OsBuild| (b.arch@, b.label@, b.url@))
}

pub open spec fn release_assets(r: ReleaseModel) -> Seq<AssetModel> {
    match r.assets {
        Some(a) => a,
        None => Seq::empty(),
    }
}

/// The release on offer, from GitHub's description of the latest release:
/// it needs a tag and at least one of the offered images.
pub open spec fn os_info_spec(r: ReleaseModel) -> Result<(Seq<char>, Seq<(Seq<char>, Seq<char>, Seq<char>)>), Seq<char>> {
    match r.tag_name {
        None => Err("latest release has no tag_name"@),
        Some(tag) => {
            let builds = builds_spec(release_assets(r), os_assets());
            if builds.len() == 0 {
                Err("release "@ + tag + " has no Arcader kiosk ISO assets"@)
            } else {
                Ok((tag, builds))
            }
        },
    }
}

fn push_build(v: &mut Vec<OsBuild>, assets: &Vec<ReleaseAsset>, arch: &str, label: &str, file: &str)
    ensures
        build_views(final(v)@) == match asset_url_spec(asset_views(assets@), file@) {
            Some(url) => build_views(old(v)@).push((arch@, label@, url)),
            None => build_views(old(v)@),
        },
{
    match asset_url(assets, file) {
        Some(url) => {
            let ghost before = v@;
            v.push(OsBuild { arch: String::from_str(arch), label: String::from_str(label), url });
            assert(build_views(v@) =~= build_views(before).push(
                (arch@, label@, asset_url_spec(asset_views(assets@), file@)->0),
            ));
        },
        None => {},
    }
}

/// The release on offer, from GitHub's description of the latest release.
pub fn os_info_from_record(r: ReleaseRecord) -> (res: Result<OsInfo, String>)
    ensures
        match os_info_spec(r@) {
            Err(m) => res matches Err(e) && e@ == m,
            Ok((version, builds)) => res matches Ok(info) && info.name@ == "Arcader OS"@
                && info.version@ == version && build_views(info.builds@) == builds,
        },
{
    let version = match &r.tag_name {
        Some(t) => t.clone(),
        None => return Err(String::from_str("latest release has no tag_name")),
    };
    let ghost rr = r@;
    let assets: Vec<ReleaseAsset> = match r.assets {
        Some(a) => a,
        None => Vec::new(),
    };
    let mut builds: Vec<OsBuild> = Vec::new();
    assert(build_views(builds@) =~= Seq::<(Seq<char>, Seq<char>, Seq<char>)>::empty());
    push_build(&mut builds, &assets, "amd64", "64-bit", "arcader-kiosk-amd64.iso");
    push_build(&mut builds, &assets, "i386", "32-bit", "arcader-kiosk-i386.iso");
    proof {
        let o = os_assets();
        let a = asset_views(assets@);
        assert(a == release_assets(rr));
        assert(o.drop_last().drop_last() =~= Seq::<(Seq<char>, Seq<char>, Seq<char>)>::empty());
        assert(o.drop_last().last() == ("amd64"@, "64-bit"@, "arcader-kiosk-amd64.iso"@));
        assert(o.last() == ("i386"@, "32-bit"@, "arcader-kiosk-i386.iso"@));
        assert(builds_spec(a, o.drop_last().drop_last()) == Seq::<(Seq<char>, Seq<char>, Seq<char>)>::empty());
        assert(builds_spec(a, o.drop_last()) == match asset_url_spec(a, "arcader-kiosk-amd64.iso"@) {
            Some(url) => Seq::<(Seq<char>, Seq<char>, Seq<char>)>::empty().push(("amd64"@, "64-bit"@, url)),
            None => Seq::<(Seq<char>, Seq<char>, Seq<char>)>::empty(),
        });
        assert(build_views(builds@) == builds_spec(a, o));
    }
    if builds.len() == 0 {
        return Err(
            string_of(
                &concat(
                    &concat(&chars_of("release "), &chars_of(version.as_str())),
                    &chars_of(" has no Arcader kiosk ISO assets"),
                ),
            ),
        );
    }
    Ok(OsInfo { name: String::from_str("Arcader OS"), version, builds })
}

/// The release on offer, from the text of GitHub's answer about the latest
/// release.
pub fn os_info_from_release(body: &str) -> (res: Result<OsInfo, String>)
    ensures
        match release_json(body@) {
            Err(m) => res matches Err(e) && e@ == "bad release data: "@ + m,
            Ok(r) => match os_info_spec(r) {
                Err(m) => res matches Err(e) && e@ == m,
                Ok((version, builds)) => res matches Ok(info) && info.name@ == "Arcader OS"@
                    && info.version@ == version && build_views(info.builds@) == builds,
            },
        },
{
    match decode_release(body) {
        Ok(r) => os_info_from_record(r),
        Err(m) => Err(string_of(&concat(&chars_of("bad release data: "), &chars_of(m.as_str())))),
    }
}

/// An image's download address is that of the first asset carrying its
/// name (none when that asset has no address), and there is none when no
/// asset carries the name.
pub proof fn lemma_asset_url_first(assets: Seq<AssetModel>, name: Seq<char>, i: int)
    ensures
        0 <= i < assets.len() && assets[i].name == Some(name) && (forall|j: int|
            0 <= j < i ==> #[trigger] assets[j].name != Some(name)) ==> asset_url_spec(assets, name)
            == assets[i].url,
        (forall|j: int| 0 <= j < assets.len() ==> #[trigger] assets[j].name != Some(name)) ==> asset_url_spec(
            assets,
            name,
        ) is None,
    decreases assets.len(),
{
    if assets.len() > 0 {
        let t = assets.drop_first();
        lemma_asset_url_first(t, name, i - 1);
        if (forall|j: int| 0 <= j < assets.len() ==> #[trigger] assets[j].name != Some(name)) {
            assert(assets[0].name != Some(name));
            assert forall|j: int| 0 <= j < t.len() implies #[trigger] t[j].name != Some(name) by {
                assert(t[j] == assets[j + 1]);
            }
        }
        if 0 < i < assets.len() && assets[i].name == Some(name) && (forall|j: int|
            0 <= j < i ==> #[trigger] assets[j].name != Some(name)) {
            assert(assets[0].name != Some(name));
            assert(t[i - 1] == assets[i]);
            assert forall|j: int| 0 <= j < i - 1 implies #[trigger] t[j].name != Some(name) by {
                assert(t[j] == assets[j + 1]);
            }
        }
    }
}

/// A tagged release is offered exactly when at least one of the offered
/// images is among its assets, each image on its own: the builds are the
/// 64-bit image when its asset has an address, then the 32-bit image when
/// its asset has one, and the version is the release's tag. A release
/// without a tag is refused.
pub proof fn lemma_release_offers_present_images(r: ReleaseModel)
    ensures
        r.tag_name is None ==> os_info_spec(r) == Err::<(Seq<char>, Seq<(Seq<char>, Seq<char>, Seq<char>)>), Seq<char>>(
            "latest release has no tag_name"@,
        ),
        ({
            let amd = asset_url_spec(release_assets(r), "arcader-kiosk-amd64.iso"@);
            let old32 = asset_url_spec(release_assets(r), "arcader-kiosk-i386.iso"@);
            let expected = (if amd is Some {
                seq![("amd64"@, "64-bit"@, amd->0)]
            } else {
                Seq::empty()
            }) + (if old32 is Some {
                seq![("i386"@, "32-bit"@, old32->0)]
            } else {
                Seq::empty()
            });
            &&& r.tag_name is Some ==> (os_info_spec(r) is Ok <==> (amd is Some || old32 is Some))
            &&& os_info_spec(r) matches Ok((version, builds)) ==> r.tag_name == Some(version) && builds
                == expected
        }),
{
    let a = release_assets(r);
    let o = os_assets();
    let amd = asset_url_spec(a, "arcader-kiosk-amd64.iso"@);
    let old32 = asset_url_spec(a, "arcader-kiosk-i386.iso"@);
    assert(o.drop_last().drop_last() =~= Seq::<(Seq<char>, Seq<char>, Seq<char>)>::empty());
    assert(o.drop_last().last() == ("amd64"@, "64-bit"@, "arcader-kiosk-amd64.iso"@));
    assert(o.last() == ("i386"@, "32-bit"@, "arcader-kiosk-i386.iso"@));
    let b1 = builds_spec(a, o.drop_last());
    assert(builds_spec(a, o.drop_last().drop_last()) == Seq::<(Seq<char>, Seq<char>, Seq<char>)>::empty());
    let e1: Seq<(Seq<char>, Seq<char>, Seq<char>)> = if amd is Some {
        seq![("amd64"@, "64-bit"@, amd->0)]
    } else {
        Seq::empty()
    };
    assert(b1 =~= e1);
    let e2: Seq<(Seq<char>, Seq<char>, Seq<char>)> = if old32 is Some {
        seq![("i386"@, "32-bit"@, old32->0)]
    } else {
        Seq::empty()
    };
    assert(builds_spec(a, o) =~= e1 + e2);
}

} // verus!
