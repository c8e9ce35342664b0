//! Torrent metadata: decoding a torrent file into a plain descriptor, and
//! re-encoding it with a new announce list.
use vstd::prelude::*;
use lava_torrent::torrent::v1::Torrent;
use lava_torrent::LavaTorrentError;

verus! {

#[verifier::external_type_specification]
#[verifier::external_body]
pub struct ExTorrent(Torrent);

#[verifier::external_type_specification]
#[verifier::external_body]
pub struct ExLavaTorrentError(LavaTorrentError);

/// What the reconciliation logic reads of a torrent's metadata.
#[derive(Clone, Debug)]
pub struct Descriptor {
    /// The info hash, as lowercase hex.
    pub fingerprint: String,
    pub name: String,
    /// Tier groups of announce URLs, if the torrent has an announce list.
    pub announce_groups: Option<Vec<Vec<String>>>,
    pub private: bool,
}

/// Tier groups of announce URLs as text.
pub open spec fn groups_of(g: Option<Vec<Vec<String>>>) -> Option<Seq<Seq<Seq<char>>>> {
    match g {
        Some(g) => Some(g.deep_view()),
        None => None,
    }
}

impl Descriptor {
    /// The announce tier groups as text.
    pub open spec fn groups(&self) -> Option<Seq<Seq<Seq<char>>>> {
        groups_of(self.announce_groups)
    }
}

impl View for Descriptor {
    /// Fingerprint, name, announce groups and privacy flag.
    type V = (Seq<char>, Seq<char>, Option<Seq<Seq<Seq<char>>>>, bool);

    open spec fn view(&self) -> Self::V {
        (self.fingerprint@, self.name@, self.groups(), self.private)
    }
}

/// The descriptor that torrent-file bytes parse to, or `None` where they are
/// not a valid torrent file.
pub uninterp spec fn parsed_torrent(bytes: Seq<u8>) -> Option<
    (Seq<char>, Seq<char>, Option<Seq<Seq<Seq<char>>>>, bool),
>;

/// A decoded torrent file: its descriptor and the full metadata it came from.
pub struct TorrentFile {
    pub meta: Descriptor,
    pub torrent: Torrent,
}

/// Why a torrent file could not be written.
#[derive(Debug)]
pub enum CodecError {
    /// The encoder failed.
    Encode(LavaTorrentError),
    /// The written bytes do not read back as the descriptor, as happens
    /// where its text is not in Unicode normal form C.
    Changed,
}

/// Relies on `Torrent::read_from_bytes`, and on `Torrent::info_hash`,
/// `Torrent::is_private` and the `name` and `announce_list` fields of the
/// parsed torrent: what it yields depends on the bytes alone.
#[verifier::external_body]
fn read_torrent(bytes: &[u8]) -> (r: Result<(Torrent, Descriptor), LavaTorrentError>)
    ensures
        match r {
            Ok((_, d)) => parsed_torrent(bytes@) == Some(d@),
            Err(_) => parsed_torrent(bytes@).is_none(),
        },
{
    let t = Torrent::read_from_bytes(bytes)?;
    let d = Descriptor {
        fingerprint: t.info_hash(),
        name: t.name.clone(),
        announce_groups: t.announce_list.clone(),
        private: t.is_private(),
    };
    Ok((t, d))
}

/// Relies on `Torrent::info_hash`: the SHA-1 of the info dictionary, as hex.
#[verifier::external_body]
fn torrent_info_hash(t: &Torrent) -> (r: String) {
    t.info_hash()
}

/// Relies on `Torrent`'s derived `Clone`.
#[verifier::external_body]
fn clone_torrent(t: &Torrent) -> (r: Torrent) {
    t.clone()
}

/// Relies on the `announce_list` field of `Torrent`: replaces the list.
#[verifier::external_body]
fn set_announce_list(t: &mut Torrent, list: Vec<Vec<String>>) {
    t.announce_list = Some(list);
}

/// Relies on the `extra_info_fields` field of `Torrent`: sets `key` to the
/// integer `value` in the info dictionary.
#[verifier::external_body]
fn set_info_integer(t: &mut Torrent, key: String, value: i64) {
    t.extra_info_fields
        .get_or_insert_with(std::collections::HashMap::new)
        .insert(key, lava_torrent::bencode::BencodeElem::Integer(value));
}

/// Relies on `Torrent::encode`: bencodes the metadata.
#[verifier::external_body]
fn encode_torrent(t: Torrent) -> (r: Result<Vec<u8>, LavaTorrentError>) {
    t.encode()
}

/// Returns whether two lists of URLs are equal.
pub fn same_urls(a: &Vec<String>, b: &Vec<String>) -> (r: bool)
    ensures
        r == (a.deep_view() == b.deep_view()),
{
    if a.len() != b.len() {
        assert(a.deep_view().len() != b.deep_view().len());
        return false;
    }
    let mut i: usize = 0;
    while i < a.len()
        invariant
            i <= a.len(),
            a.len() == b.len(),
            forall|k: int| 0 <= k < i ==> a.deep_view()[k] == b.deep_view()[k],
        decreases a.len() - i,
    {
        if a[i] != b[i] {
            assert(a.deep_view()[i as int] != b.deep_view()[i as int]);
            return false;
        }
        i += 1;
    }
    assert(a.deep_view() =~= b.deep_view());
    true
}

/// Returns whether two announce lists are equal.
pub fn same_groups(a: &Option<Vec<Vec<String>>>, b: &Option<Vec<Vec<String>>>) -> (r: bool)
    ensures
        r == (groups_of(*a) == groups_of(*b)),
{
    match (a, b) {
        (None, None) => true,
        (Some(x), Some(y)) => {
            if x.len() != y.len() {
                assert(x.deep_view().len() != y.deep_view().len());
                return false;
            }
            let mut i: usize = 0;
            while i < x.len()
                invariant
                    i <= x.len(),
                    x.len() == y.len(),
                    *a == Some(*x),
                    *b == Some(*y),
                    forall|k: int| 0 <= k < i ==> x.deep_view()[k] == y.deep_view()[k],
                decreases x.len() - i,
            {
                if !same_urls(&x[i], &y[i]) {
                    assert(x.deep_view()[i as int] != y.deep_view()[i as int]);
                    assert(x.deep_view() != y.deep_view());
                    assert(groups_of(*a) != groups_of(*b));
                    return false;
                }
                i += 1;
            }
            assert(x.deep_view() =~= y.deep_view());
            true
        },
        _ => false,
    }
}

impl Descriptor {
    /// Returns whether two descriptors are equal.
    pub fn same_as(&self, other: &Descriptor) -> (r: bool)
        ensures
            r == (self@ == other@),
    {
        self.fingerprint == other.fingerprint && self.name == other.name && same_groups(
            &self.announce_groups,
            &other.announce_groups,
        ) && self.private == other.private
    }
}

impl TorrentFile {
    /// Decodes torrent-file bytes.
    pub fn decode(bytes: &[u8]) -> (r: Result<TorrentFile, LavaTorrentError>)
        ensures
            r is Ok <==> parsed_torrent(bytes@) is Some,
            r matches Ok(t) ==> parsed_torrent(bytes@) == Some(t.meta@),
    {
        match read_torrent(bytes) {
            Ok((torrent, meta)) => Ok(TorrentFile { meta, torrent }),
            Err(e) => Err(e),
        }
    }

    /// A copy whose announce list is the single tier `trackers` and whose
    /// info dictionary is marked private, all else kept. The fingerprint is
    /// recomputed, since the private flag is part of the info dictionary.
    /// What `encode` writes of the copy reads back as its descriptor.
    pub fn with_trackers_private(&self, trackers: Vec<String>) -> (r: TorrentFile)
        ensures
            r.meta.groups() == Some(seq![trackers.deep_view()]),
            r.meta.private,
            r.meta.name@ == self.meta.name@,
    {
        let ghost tv = trackers.deep_view();
        let mut torrent = clone_torrent(&self.torrent);
        let mut groups: Vec<Vec<String>> = Vec::new();
        groups.push(trackers);
        assert(groups.deep_view() =~= seq![tv]);
        let g2 = clone_groups(&groups);
        set_announce_list(&mut torrent, groups);
        set_info_integer(&mut torrent, String::from_str("private"), 1);
        let meta = Descriptor {
            fingerprint: torrent_info_hash(&torrent),
            name: self.meta.name.clone(),
            announce_groups: Some(g2),
            private: true,
        };
        TorrentFile { meta, torrent }
    }

    /// Encodes the metadata back to torrent-file bytes. The bytes are read
    /// back before they are returned: what comes back decodes to this
    /// file's descriptor.
    pub fn encode(&self) -> (r: Result<Vec<u8>, CodecError>)
        ensures
            r matches Ok(b) ==> parsed_torrent(b@) == Some(self.meta@),
    {
        match encode_torrent(clone_torrent(&self.torrent)) {
            Err(e) => Err(CodecError::Encode(e)),
            Ok(bytes) => match read_torrent(bytes.as_slice()) {
                Ok((_, back)) => {
                    if back.same_as(&self.meta) {
                        Ok(bytes)
                    } else {
                        Err(CodecError::Changed)
                    }
                },
                Err(_) => Err(CodecError::Changed),
            },
        }
    }
}

/// Round trip: bytes that `encode` returned for a descriptor `d` decode to a
/// descriptor equal to `d`.
pub proof fn lemma_round_trip(d: Descriptor, bytes: Seq<u8>, back: Descriptor)
    requires
        parsed_torrent(bytes) == Some(d@),
        parsed_torrent(bytes) == Some(back@),
    ensures
        back@ == d@,
{
}

/// A copy of tier groups of URLs.
pub fn clone_groups(g: &Vec<Vec<String>>) -> (r: Vec<Vec<String>>)
    ensures
        r.deep_view() == g.deep_view(),
{
    let mut r: Vec<Vec<String>> = Vec::new();
    let mut i: usize = 0;
    while i < g.len()
        invariant
            i <= g.len(),
            r.deep_view() == g.deep_view().take(i as int),
        decreases g.len() - i,
    {
        let group = clone_urls(&g[i]);
        let ghost before = r.deep_view();
        r.push(group);
        assert(r.deep_view() =~= before.push(g[i as int].deep_view()));
        assert(r.deep_view() =~= g.deep_view().take(i as int + 1));
        i += 1;
    }
    assert(g.deep_view().take(g.len() as int) =~= g.deep_view());
    r
}

/// A copy of a list of URLs.
pub fn clone_urls(v: &Vec<String>) -> (r: Vec<String>)
    ensures
        r.deep_view() == v.deep_view(),
{
    let mut r: Vec<String> = Vec::new();
    let mut i: usize = 0;
    while i < v.len()
        invariant
            i <= v.len(),
            r.deep_view() == v.deep_view().take(i as int),
        decreases v.len() - i,
    {
        let s = v[i].clone();
        let ghost before = r.deep_view();
        r.push(s);
        assert(r.deep_view() =~= before.push(v[i as int]@));
        assert(r.deep_view() =~= v.deep_view().take(i as int + 1));
        i += 1;
    }
    assert(v.deep_view().take(v.len() as int) =~= v.deep_view());
    r
}

} // verus!
