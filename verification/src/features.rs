//! What the scanner learns about a host, and how it is reported.

use vstd::prelude::*;

verus! {

/// A fact learned about a service of the scanned host.
#[derive(PartialEq, Debug)]
pub enum Features {
    //#HTTP
    HttpVersion(String),
    //#FTP
    FTPAuth(String),
    //#SSH
    SSHVersion(String),
    //An entry that carries nothing
    Empty(),
}

/// The mathematical value of a `Features`.
pub enum FeatureView {
    HttpVersion(Seq<char>),
    FTPAuth(Seq<char>),
    SSHVersion(Seq<char>),
    Empty,
}

impl View for Features {
    type V = FeatureView;

    open spec fn view(&self) -> FeatureView {
        match self {
            Features::HttpVersion(s) => FeatureView::HttpVersion(s@),
            Features::FTPAuth(s) => FeatureView::FTPAuth(s@),
            Features::SSHVersion(s) => FeatureView::SSHVersion(s@),
            Features::Empty() => FeatureView::Empty,
        }
    }
}

/// The values of a sequence of features.
pub open spec fn features_view(fs: Seq<Features>) -> Seq<FeatureView> {
    fs.map_values(|f: Features| f@)
}

/// All features of a host, in the order HTTP, SSH, FTP.
pub fn get_features(http: Vec<Features>, ssh: Vec<Features>, ftp: Vec<Features>) -> (all: Vec<
    Features,
>)
    ensures
        all@ == http@ + ssh@ + ftp@,
{
    let mut all = http;
    let mut ssh = ssh;
    let mut ftp = ftp;
    all.append(&mut ssh);
    all.append(&mut ftp);
    all
}

/// The report line for one feature; an empty feature gives none.
pub open spec fn report_line(f: FeatureView) -> Option<Seq<char>> {
    match f {
        FeatureView::FTPAuth(auth) => Some("├─ [FTP] Аутентификация: "@ + auth),
        FeatureView::HttpVersion(version) => Some("├─ [HTTP] Версия: "@ + version),
        FeatureView::SSHVersion(version) => Some("├─ [SSH] Версия: "@ + version),
        FeatureView::Empty => None,
    }
}

/// The report lines for a sequence of features, in order.
pub open spec fn report(fs: Seq<FeatureView>) -> Seq<Seq<char>>
    decreases fs.len(),
{
    if fs.len() == 0 {
        seq![]
    } else {
        let prev = report(fs.drop_last());
        match report_line(fs.last()) {
            Some(line) => prev.push(line),
            None => prev,
        }
    }
}

/// Reporting two lists one after the other is reporting their
/// concatenation: no feature's line depends on its neighbours.
pub proof fn lemma_report_concat(a: Seq<FeatureView>, b: Seq<FeatureView>)
    ensures
        report(a + b) == report(a) + report(b),
    decreases b.len(),
{
    if b.len() == 0 {
        assert(a + b =~= a);
        assert(report(a) + report(b) =~= report(a));
    } else {
        lemma_report_concat(a, b.drop_last());
        assert((a + b).drop_last() =~= a + b.drop_last());
        assert((a + b).last() == b.last());
        match report_line(b.last()) {
            Some(line) => {
                assert(report(a) + report(b) =~= (report(a) + report(b.drop_last())).push(line));
            },
            None => {},
        }
    }
}

/// The report of a single feature: one line, the kind's label followed by
/// the feature's text, for every feature that is not empty; no line for an
/// empty one.
pub proof fn lemma_report_single(f: FeatureView)
    ensures
        report(seq![f]) == match f {
            FeatureView::FTPAuth(auth) => seq!["├─ [FTP] Аутентификация: "@ + auth],
            FeatureView::HttpVersion(version) => seq!["├─ [HTTP] Версия: "@ + version],
            FeatureView::SSHVersion(version) => seq!["├─ [SSH] Версия: "@ + version],
            FeatureView::Empty => Seq::<Seq<char>>::empty(),
        },
{
    assert(seq![f].drop_last() =~= Seq::<FeatureView>::empty());
    assert(seq![f].last() == f);
    assert(report(Seq::<FeatureView>::empty()) == Seq::<Seq<char>>::empty());
    match report_line(f) {
        Some(line) => {
            assert(Seq::<Seq<char>>::empty().push(line) =~= seq![line]);
        },
        None => {},
    }
}

/// The report has exactly one line per feature that is not empty.
pub proof fn lemma_report_length(fs: Seq<FeatureView>)
    ensures
        report(fs).len() == fs.filter(|f: FeatureView| !(f is Empty)).len(),
    decreases fs.len(),
{
    reveal(Seq::filter);
    if fs.len() > 0 {
        lemma_report_length(fs.drop_last());
    }
}

/// The texts of a sequence of strings.
pub open spec fn texts(v: Seq<String>) -> Seq<Seq<char>> {
    v.map_values(|s: String| s@)
}

fn line_for(feature: &Features) -> (line: Option<String>)
    ensures
        match line {
            Some(l) => report_line(feature@) == Some(l@),
            None => report_line(feature@) is None,
        },
{
    let (prefix, text) = match feature {
        Features::FTPAuth(auth) => ("├─ [FTP] Аутентификация: ", auth),
        Features::HttpVersion(version) => ("├─ [HTTP] Версия: ", version),
        Features::SSHVersion(version) => ("├─ [SSH] Версия: ", version),
        Features::Empty() => {
            return None;
        },
    };
    let mut line = String::from_str(prefix);
    line.append(text.as_str());
    Some(line)
}

/// The lines that present the features to the user, one for each feature
/// that carries a text, in order.
pub fn report_lines(features: &Vec<Features>) -> (lines: Vec<String>)
    ensures
        texts(lines@) == report(features_view(features@)),
{
    let mut lines: Vec<String> = Vec::new();
    let n = features.len();
    let mut i: usize = 0;
    while i < n
        invariant
            n == features@.len(),
            i <= n,
            texts(lines@) == report(features_view(features@.take(i as int))),
        decreases n - i,
    {
        let ghost before = lines@;
        let line = line_for(&features[i]);
        assert(features@.take(i + 1).drop_last() =~= features@.take(i as int));
        assert(features_view(features@.take(i + 1)).drop_last() =~= features_view(
            features@.take(i as int),
        ));
        match line {
            Some(l) => {
                lines.push(l);
                assert(texts(lines@) =~= texts(before).push(l@));
            },
            None => {},
        }
        i = i + 1;
    }
    assert(features@.take(n as int) =~= features@);
    lines
}

} // verus!
