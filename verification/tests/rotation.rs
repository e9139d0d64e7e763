//! The watch set a configuration assembles, and the watch over it.
//!
//! Certificates are minted per run: a fixture key in a repository is a secret in
//! a repository, and it expires on a date nobody is watching.

use rcgen::{
    date_time_ymd, BasicConstraints, CertificateParams, CertifiedIssuer, DnType,
    ExtendedKeyUsagePurpose, IsCa, KeyPair, KeyUsagePurpose,
};
use sha2::{Digest, Sha256};
use yadgar_lifecycle::rotate::inputs::shown_as;
use yadgar_lifecycle::rotate::{
    Event, Expiry, File, Gauge, Inputs, Material, Next, Notice, Presented, Schedule, Step, Watcher,
    CERTIFICATE_NOT_AFTER, WATCHED_FILES_UNREADABLE,
};
use yadgar_lifecycle::text::hex;
use yadgar_lifecycle::{Duration, FilePath};

/// The label every gauge in this suite carries.
const SERVICE: &str = "lifecycle-test";

/// The leaf's expiry and the issuing authority's, a decade apart, so that an
/// implementation which parses the last certificate of a file lands on the wrong
/// one.
const LEAF_NOT_AFTER: i64 = 1_813_017_600; // 2027-06-15T00:00:00Z
const CA_NOT_AFTER: i64 = 2_128_636_800; // 2037-06-15T00:00:00Z
const CLIENT_NOT_AFTER: i64 = 1_844_640_000; // 2028-06-15T00:00:00Z

/// Every file one generation of the mount holds.
const NAMES: [&str; 7] = [
    "tls.pem",
    "tls-key.pem",
    "ca.pem",
    "enrolment-ca.pem",
    "client.pem",
    "client-key.pem",
    "broker-password",
];

/// One generation of the mount: the file names a chart writes, and their
/// contents.
type Generation = Vec<(String, String)>;

/// A whole mount's worth of freshly minted material.
fn generation(san: &str) -> Generation {
    let ca_key = KeyPair::generate().unwrap();
    let mut ca_params = CertificateParams::new(Vec::<String>::new()).unwrap();
    ca_params.is_ca = IsCa::Ca(BasicConstraints::Unconstrained);
    ca_params.key_usages = vec![KeyUsagePurpose::KeyCertSign, KeyUsagePurpose::CrlSign];
    ca_params.not_after = date_time_ymd(2037, 6, 15);
    ca_params.distinguished_name.push(
        DnType::CommonName,
        "yadgar-lifecycle rotation test authority",
    );
    let ca = CertifiedIssuer::self_signed(ca_params, ca_key).unwrap();

    let key = KeyPair::generate().unwrap();
    let mut params = CertificateParams::new(vec![san.to_string()]).unwrap();
    params.extended_key_usages = vec![ExtendedKeyUsagePurpose::ServerAuth];
    params.not_after = date_time_ymd(2027, 6, 15);
    params.distinguished_name.push(DnType::CommonName, san);
    let leaf = params.signed_by(&key, &ca).unwrap();

    let client_key = KeyPair::generate().unwrap();
    let mut client_params = CertificateParams::new(vec![format!("{san}-caller")]).unwrap();
    client_params.extended_key_usages = vec![ExtendedKeyUsagePurpose::ClientAuth];
    client_params.not_after = date_time_ymd(2028, 6, 15);
    client_params
        .distinguished_name
        .push(DnType::CommonName, format!("{san}-caller"));
    let client_leaf = client_params.signed_by(&client_key, &ca).unwrap();

    vec![
        ("tls.pem".to_string(), format!("{}{}", leaf.pem(), ca.pem())),
        ("tls-key.pem".to_string(), key.serialize_pem()),
        ("ca.pem".to_string(), ca.pem()),
        ("enrolment-ca.pem".to_string(), ca.pem()),
        (
            "client.pem".to_string(),
            format!("{}{}", client_leaf.pem(), ca.pem()),
        ),
        ("client-key.pem".to_string(), client_key.serialize_pem()),
        (
            "broker-password".to_string(),
            format!(
                "sentinel-broker-password-{}\n",
                hex(&Sha256::digest(key.serialize_pem()))
            ),
        ),
    ]
}

/// A self-signed leaf, PEM.
fn self_signed(name: &str) -> String {
    let key = KeyPair::generate().expect("a key pair");
    let mut params =
        CertificateParams::new(vec![name.to_string()]).expect("a subject alternative name");
    params.distinguished_name.push(DnType::CommonName, name);
    params.self_signed(&key).expect("a self-signed leaf").pem()
}

/// The same generation with ONE file's contents replaced.
fn with_replaced(base: &Generation, name: &str, contents: &str) -> Generation {
    base.iter()
        .map(|(n, c)| {
            let replaced = if n == name { contents } else { c.as_str() };
            (n.clone(), replaced.to_string())
        })
        .collect()
}

/// The same generation with the contents of two files EXCHANGED.
fn with_exchanged(base: &Generation, one: &str, other: &str) -> Generation {
    let get = |name: &str| {
        base.iter()
            .find(|(n, _)| n == name)
            .map(|(_, c)| c.clone())
            .expect("the mount holds that file")
    };
    let (a, b) = (get(one), get(other));
    base.iter()
        .map(|(n, c)| match n.as_str() {
            m if m == one => (n.clone(), b.clone()),
            m if m == other => (n.clone(), a.clone()),
            _ => (n.clone(), c.clone()),
        })
        .collect()
}

/// A directory a Secret is mounted at, and the generation it holds.
struct Mount {
    root: FilePath,
    files: Generation,
    broken: bool,
}

impl Mount {
    fn new(files: &Generation) -> Self {
        Mount {
            root: FilePath::new("/run/secrets/yadgar"),
            files: files.clone(),
            broken: false,
        }
    }

    fn path(&self, name: &str) -> FilePath {
        self.root.join(&FilePath::new(name))
    }

    /// What is rewritten when the Secret changes: the whole generation.
    fn swap(&mut self, files: &Generation) {
        self.files = files.clone();
    }

    /// Every file becomes unreadable without any of them being deleted.
    fn break_it(&mut self) {
        self.broken = true;
    }

    fn read(&self, path: &FilePath) -> Option<Vec<u8>> {
        if self.broken {
            return None;
        }
        self.files
            .iter()
            .find(|(name, _)| self.path(name) == *path)
            .map(|(_, contents)| contents.as_bytes().to_vec())
    }

    fn read_all(&self, material: &dyn Material) -> Vec<Option<Vec<u8>>> {
        material
            .files()
            .iter()
            .map(|file| self.read(file.path()))
            .collect()
    }

    /// The watch set over a list of materials, each read as it is taken.
    fn fold(&self, materials: &[&dyn Material]) -> Inputs {
        let contents: Vec<Vec<Option<Vec<u8>>>> = materials
            .iter()
            .map(|material| self.read_all(*material))
            .collect();
        Inputs::of(SERVICE, materials, &contents)
    }

    fn listener(&self) -> Listener {
        Listener {
            certificate: self.path("tls.pem"),
            key: self.path("tls-key.pem"),
        }
    }

    fn upstream(&self) -> Upstream {
        Upstream {
            ca: self.path("ca.pem"),
            client: Some((self.path("client.pem"), self.path("client-key.pem"))),
        }
    }

    fn broker(&self) -> BrokerCredentials {
        BrokerCredentials {
            password_file: self.path("broker-password"),
        }
    }

    fn enrolment_ca(&self) -> FilePath {
        self.path("enrolment-ca.pem")
    }
}

/// A listener's transport: the certificate it serves and the key beside it.
struct Listener {
    certificate: FilePath,
    key: FilePath,
}

impl Material for Listener {
    fn files(&self) -> Vec<File<'_>> {
        vec![
            File::certificate(Presented::Serving, &self.certificate),
            File::read(&self.key),
        ]
    }
}

/// How an upstream is verified, and what this process presents to it.
struct Upstream {
    ca: FilePath,
    client: Option<(FilePath, FilePath)>,
}

impl Material for Upstream {
    fn files(&self) -> Vec<File<'_>> {
        let mut files = vec![File::read(&self.ca)];
        if let Some((certificate, key)) = &self.client {
            files.push(File::certificate(Presented::Client, certificate));
            files.push(File::read(key));
        }
        files
    }
}

/// A credential that is not a certificate at all, watched on provenance alone.
struct BrokerCredentials {
    password_file: FilePath,
}

impl Material for BrokerCredentials {
    fn files(&self) -> Vec<File<'_>> {
        vec![File::read(&self.password_file)]
    }
}

/// The watch set a deployment produces, assembled over the configuration types a
/// service holds, never by naming seven paths.
fn inputs(mount: &Mount) -> Inputs {
    let listener = mount.listener();
    let upstream = mount.upstream();
    let broker = mount.broker();
    let enrolment = mount.enrolment_ca();
    mount.fold(&[&listener, &upstream, &broker, &enrolment])
}

fn at_once() -> Schedule {
    Schedule::new(Duration::from_millis(20), Duration::from_secs(0))
}

/// One poll of the watch over what the mount holds now.
fn poll(watcher: &mut Watcher, mount: &Mount) -> Step {
    assert!(matches!(watcher.pending(), Next::PollAfter(_)));
    let contents = watcher
        .watched()
        .iter()
        .map(|path| mount.read(path))
        .collect();
    watcher.advance(Event::Polled(contents))
}

/// Whether the watch ends within a number of polls, driven as a runtime would.
fn ends(inputs: Inputs, mount: &Mount, polls: usize) -> bool {
    let (mut watcher, mut step) = Watcher::start(inputs, at_once(), 0);
    let mut left = polls;
    loop {
        match step.next {
            Next::Never => return false,
            Next::PollAfter(_) if left == 0 => return false,
            Next::PollAfter(_) => {
                left -= 1;
                step = poll(&mut watcher, mount);
            }
            Next::ReadLeaves => {
                let serving = watcher
                    .leaf_path(Presented::Serving)
                    .and_then(|path| mount.read(path));
                let client = watcher
                    .leaf_path(Presented::Client)
                    .and_then(|path| mount.read(path));
                step = watcher.advance(Event::LeavesRead { serving, client });
            }
            Next::SplayFor(_) => step = watcher.advance(Event::SplayElapsed),
            Next::Done => return true,
        }
    }
}

fn unreadable_gauge(count: i128) -> Gauge {
    Gauge {
        name: WATCHED_FILES_UNREADABLE,
        labels: vec![("service", SERVICE)],
        value: count,
    }
}

// The watch set.

#[test]
fn nothing_configured_is_empty() {
    assert!(Inputs::new("test").is_empty());
    assert!(!Inputs::new("test")
        .also(&FilePath::new("/etc/yadgar/tls.pem"), None)
        .is_empty());
}

#[test]
fn an_unreadable_input_has_no_baseline() {
    let path = FilePath::new("/etc/yadgar/quokka-4d81/absent.pem");
    let inputs = Inputs::new("test").also(&path, None);
    assert_eq!(inputs.unread_at_boot(), vec![&path]);
    assert_eq!(inputs.on_disk(&[None]), vec![None]);
    assert_eq!(inputs.fingerprint(Presented::Serving), None);
    assert_eq!(inputs.not_after(Presented::Serving), None);
    assert_eq!(inputs.fingerprint(Presented::Client), None);
    assert_eq!(inputs.not_after(Presented::Client), None);
}

#[test]
fn an_unreadable_input_does_not_erase_the_baselines_beside_it() {
    let absent = FilePath::new("/etc/yadgar/quokka-4d81/absent.pem");
    let readable = FilePath::new("/proc/self/cmdline");
    let held = b"a command line".to_vec();
    let inputs = Inputs::new("test")
        .also(&absent, None)
        .also(&readable, Some(&held));

    assert_eq!(inputs.unread_at_boot(), vec![&absent]);
    let on_disk = inputs.on_disk(&[None, Some(held)]);
    assert_eq!(on_disk.len(), 2);
    assert_eq!(on_disk[0], None, "the unreadable one, and only it");
    assert!(on_disk[1].is_some(), "the readable one still answers");

    // AND THE UNREADABLE ONE IS NOT REPORTED AS A CHANGE. `None` on both sides
    // is "still unreadable", never "rotated".
    assert!(inputs.differing(&on_disk).is_empty());
    assert_eq!(inputs.unreadable(&on_disk), vec![absent.display()]);
}

#[test]
fn a_file_with_no_baseline_that_now_reads_is_a_change() {
    let absent = FilePath::new("/etc/yadgar/quokka-4d81/absent.pem");
    let inputs = Inputs::new("test").also(&absent, None);
    let digest: [u8; 32] = Sha256::digest(b"material this process never loaded").into();
    let appeared = vec![Some(digest)];

    assert_eq!(inputs.differing(&appeared), vec![absent.display()]);
    assert!(inputs.unreadable(&appeared).is_empty());
}

#[test]
fn a_file_named_twice_is_watched_once() {
    let path = FilePath::new("/etc/yadgar/quokka-4d81/client.pem");
    let inputs = Inputs::new("test").also(&path, None).also(&path, None);
    assert_eq!(inputs.watched(), vec![&path]);

    let both = Inputs::new("test")
        .certificate(Presented::Client, &path, None)
        .also(&path, None);
    assert_eq!(both.watched(), vec![&path]);
}

#[test]
fn an_absent_certificate_reads_differently_from_an_unreadable_one() {
    assert_eq!(
        Inputs::new("test").reported(Presented::Serving, false, None),
        "none"
    );

    let configured = Inputs::new("test").certificate(
        Presented::Serving,
        &FilePath::new("/etc/yadgar/quokka-4d81/absent.pem"),
        None,
    );
    assert_eq!(
        configured.reported(Presented::Serving, false, None),
        "unknown"
    );
    assert_eq!(
        configured.reported(Presented::Serving, true, None),
        "unknown"
    );
}

#[test]
fn the_boot_baseline_and_the_file_on_disk_are_reported_apart() {
    let path = FilePath::new("/run/secrets/yadgar/tls.pem");
    let loaded = self_signed("before.yadgar.internal");
    let inputs =
        Inputs::new("test").certificate(Presented::Serving, &path, Some(loaded.as_bytes()));
    let baseline = inputs.reported(Presented::Serving, false, None);
    assert_eq!(
        baseline.len(),
        64,
        "SHA-256 over the loaded leaf's DER, hex"
    );
    assert_eq!(
        inputs.reported(Presented::Serving, true, Some(loaded.as_bytes())),
        baseline,
        "nothing has rotated, so both sides name the same certificate"
    );

    let rotated_onto = self_signed("after.yadgar.internal");
    assert_ne!(loaded, rotated_onto, "two mints must differ");
    assert_eq!(
        inputs.reported(Presented::Serving, false, Some(rotated_onto.as_bytes())),
        baseline,
        "`serving_before` must keep naming the leaf that was LOADED, never the file"
    );
    let after = inputs.reported(Presented::Serving, true, Some(rotated_onto.as_bytes()));
    assert_eq!(after.len(), 64, "SHA-256 over the rotated leaf's DER, hex");
    assert_ne!(
        after, baseline,
        "`serving_after` must name the leaf on disk, or the line reports a rotation by printing \
         one fingerprint twice"
    );

    let client = FilePath::new("/run/secrets/yadgar/client.pem");
    let caller = self_signed("caller.yadgar.internal");
    let both = inputs.certificate(Presented::Client, &client, Some(caller.as_bytes()));
    assert_ne!(
        both.reported(Presented::Client, false, None),
        both.reported(Presented::Serving, false, None),
        "the serving and client leaves are different certificates"
    );
}

#[test]
fn the_watch_set_holds_every_file_the_configuration_named() {
    let mount = Mount::new(&generation("yadgar"));
    let watched: Vec<String> = inputs(&mount)
        .watched()
        .iter()
        .map(|p| p.display())
        .collect();

    for name in NAMES {
        let expected = mount.path(name).display();
        assert!(
            watched.contains(&expected),
            "{name} is not in the watch set, so a rotation of it would never be noticed. \
             Watching: {watched:?}"
        );
    }
    assert_eq!(watched.len(), NAMES.len(), "and nothing else: {watched:?}");
}

#[test]
fn a_watch_set_assembled_without_one_member_is_caught() {
    let mount = Mount::new(&generation("yadgar"));
    let listener = mount.listener();
    let upstream = mount.upstream();
    let broker = mount.broker();
    let enrolment = mount.enrolment_ca();

    let whole = mount.fold(&[&listener, &upstream, &broker, &enrolment]);
    // THE MUTANT: `&enrolment` deleted.
    let mutant = mount.fold(&[&listener, &upstream, &broker]);

    assert!(
        whole.watched().contains(&&enrolment),
        "the whole assembly must watch the file its configuration named"
    );
    assert!(
        !mutant.watched().contains(&&enrolment),
        "the mutant must be observably different; if it is not, this assertion proves nothing"
    );
    assert_eq!(
        mutant.watched().len(),
        whole.watched().len() - 1,
        "one member dropped, one file unwatched"
    );
}

#[test]
fn a_material_that_names_only_half_its_pair_is_caught() {
    let mount = Mount::new(&generation("yadgar"));
    let listener = mount.listener();

    let whole = mount.fold(&[&listener]);
    assert_eq!(
        whole.watched(),
        vec![&mount.path("tls.pem"), &mount.path("tls-key.pem")],
        "a listener reads its certificate and the key belonging to it"
    );

    // THE MUTANT: an `Upstream` whose client pair was dropped. It still watches
    // its bundle, so nothing about it looks broken.
    let without_client = Upstream {
        ca: mount.path("ca.pem"),
        client: None,
    };
    assert_eq!(
        mount.fold(&[&without_client]).watched(),
        vec![&mount.path("ca.pem")],
        "and the client leaf is simply absent"
    );
}

#[test]
fn the_list_decides_the_order_and_the_certificate_leads_it() {
    let mount = Mount::new(&generation("yadgar"));
    let listener = mount.listener();
    let upstream = mount.upstream();

    let inputs = mount.fold(&[&listener, &upstream]);
    assert_eq!(
        inputs.watched(),
        vec![
            &mount.path("tls.pem"),
            &mount.path("tls-key.pem"),
            &mount.path("ca.pem"),
            &mount.path("client.pem"),
            &mount.path("client-key.pem"),
        ]
    );
    assert!(inputs.fingerprint(Presented::Serving).is_some());
    assert!(inputs.fingerprint(Presented::Client).is_some());
}

#[test]
fn an_absent_material_contributes_nothing() {
    let mount = Mount::new(&generation("yadgar"));
    let nothing: Option<Listener> = None;
    assert!(mount.fold(&[&nothing]).is_empty());

    // TLS OFF, a token-issuing CA set: a default install's shape. Something is
    // still read at boot, so something is still watched.
    let enrolment = mount.enrolment_ca();
    let cleartext = mount.fold(&[&nothing, &Some(enrolment.clone())]);
    assert_eq!(
        cleartext.watched(),
        vec![&enrolment],
        "a cleartext deployment that read a CA at boot still watches it"
    );
}

#[test]
fn a_file_named_by_two_materials_is_watched_once() {
    let mount = Mount::new(&generation("yadgar"));
    let one = mount.upstream();
    let other = Upstream {
        ca: mount.path("enrolment-ca.pem"),
        client: Some((mount.path("client.pem"), mount.path("client-key.pem"))),
    };

    let inputs = mount.fold(&[&one, &other]);
    assert_eq!(
        inputs.watched(),
        vec![
            &mount.path("ca.pem"),
            &mount.path("client.pem"),
            &mount.path("client-key.pem"),
            &mount.path("enrolment-ca.pem"),
        ],
        "the shared client pair is hashed once, in the position it first appeared"
    );
}

#[test]
fn a_bare_path_is_material() {
    let mount = Mount::new(&generation("yadgar"));
    let password = mount.path("broker-password");
    assert_eq!(mount.fold(&[&password]).watched(), vec![&password]);
    assert!(
        mount
            .fold(&[&password])
            .fingerprint(Presented::Serving)
            .is_none(),
        "a password is not a certificate, and nothing pretends it has an expiry"
    );
}

#[test]
fn taking_one_at_a_time_reaches_the_same_watch_set() {
    let mount = Mount::new(&generation("yadgar"));
    let listener = mount.listener();
    let upstream = mount.upstream();
    let broker = mount.broker();

    let folded = mount.fold(&[&listener, &upstream, &broker]);
    let taken = Inputs::new(SERVICE)
        .take(&listener, &mount.read_all(&listener))
        .take(&upstream, &mount.read_all(&upstream))
        .take(&broker, &mount.read_all(&broker));
    assert_eq!(folded.watched(), taken.watched());
    assert_eq!(
        folded.fingerprint(Presented::Serving),
        taken.fingerprint(Presented::Serving)
    );
    assert_eq!(folded, taken);
    let listed = Inputs::new(SERVICE)
        .take_files(&listener.files(), &mount.read_all(&listener))
        .take_files(&upstream.files(), &mount.read_all(&upstream))
        .take_files(&broker.files(), &mount.read_all(&broker));
    assert_eq!(folded, listed);
    let at_once = Inputs::of_files(
        SERVICE,
        &[listener.files(), upstream.files(), broker.files()],
        &[
            mount.read_all(&listener),
            mount.read_all(&upstream),
            mount.read_all(&broker),
        ],
    );
    assert_eq!(folded, at_once);
}

#[test]
fn a_file_that_could_not_be_read_is_still_in_the_watch_set() {
    let absent = FilePath::new("/etc/yadgar/quokka-4d81/absent.pem");
    let mount = Mount::new(&Vec::new());
    let inputs = mount.fold(&[&absent]);
    assert_eq!(inputs.watched(), vec![&absent]);
    assert!(!inputs.is_empty());
}

#[test]
fn a_file_nothing_was_read_for_counts_as_unreadable() {
    let one = FilePath::new("/a");
    let other = FilePath::new("/b");
    let inputs = Inputs::of(
        "test",
        &[&one, &other],
        &[vec![Some(b"a".to_vec())]],
    );
    assert_eq!(inputs.unread_at_boot(), vec![&other]);
    assert_eq!(inputs.on_disk(&[Some(b"a".to_vec())])[1], None);
}

#[test]
fn a_file_spelled_two_ways_is_watched_once_as_it_was_first_spelled() {
    let inputs = Inputs::new("test")
        .also(&FilePath::new("/etc/yadgar//tls.pem"), Some(b"first"))
        .also(&FilePath::new("/etc/./yadgar/tls.pem"), Some(b"second"));
    assert_eq!(inputs.watched().len(), 1);
    assert_eq!(inputs.watched()[0].display(), "/etc/yadgar//tls.pem");
    // The digest it was first read with is the one it is held against.
    assert!(inputs
        .differing(&inputs.on_disk(&[Some(b"first".to_vec())]))
        .is_empty());
    assert_eq!(
        inputs.differing(&inputs.on_disk(&[Some(b"second".to_vec())])),
        vec!["/etc/yadgar//tls.pem".to_string()]
    );
}

#[test]
fn taking_more_keeps_what_was_watched_in_its_place() {
    let mount = Mount::new(&generation("yadgar"));
    let listener = mount.listener();
    let upstream = mount.upstream();
    let begun = mount.fold(&[&listener]);
    let taken = begun.clone().take(&upstream, &mount.read_all(&upstream));
    assert_eq!(taken.watched()[..2], begun.watched()[..]);
    assert_eq!(taken.watched().len(), 5);

    // Again, with other bytes: nothing is added and no baseline moves.
    let again = taken.clone().take(&listener, &[None, Some(b"other".to_vec())]);
    assert_eq!(again.watched(), taken.watched());
    assert!(again.unread_at_boot().is_empty());
}

#[test]
fn a_role_decides_what_is_reported_and_never_what_is_watched() {
    let path = FilePath::new("/x/tls.pem");
    let leaf = self_signed("role.yadgar.internal");
    let as_file = Inputs::new("test").record(&File::read(&path), Some(leaf.as_bytes()));
    let as_leaf = Inputs::new("test").record(
        &File::certificate(Presented::Client, &path),
        Some(leaf.as_bytes()),
    );
    assert_eq!(as_file.watched(), as_leaf.watched());
    let now = vec![Some(b"other".to_vec())];
    assert_eq!(
        as_file.differing(&as_file.on_disk(&now)),
        as_leaf.differing(&as_leaf.on_disk(&now))
    );
    assert_eq!(as_file.fingerprint(Presented::Client), None);
    assert!(as_leaf.fingerprint(Presented::Client).is_some());
    assert_eq!(as_leaf.fingerprint(Presented::Serving), None);
    assert_eq!(as_leaf.leaf_path(Presented::Client), Some(&path));
    assert_eq!(as_leaf.leaf_path(Presented::Serving), None);
    assert_eq!(File::read(&path).presented(), None);
}

#[test]
fn the_digest_of_a_watched_file_is_sha_256() {
    let inputs = Inputs::new("test").also(&FilePath::new("/x"), None);
    let now = inputs.on_disk(&[Some(b"abc".to_vec())]);
    assert_eq!(
        hex(&now[0].unwrap()),
        "ba7816bf8f01cfea414140de5dae2223b00361a396177a9cb410ff61f20015ad"
    );
}

#[test]
fn a_file_that_is_no_certificate_loads_none() {
    let path = FilePath::new("/x/tls.pem");
    let broken = "-----BEGIN CERTIFICATE-----\n!!!!\n-----END CERTIFICATE-----\n";
    for contents in ["", "plain text\n", broken] {
        let inputs =
            Inputs::new("test").certificate(Presented::Serving, &path, Some(contents.as_bytes()));
        assert_eq!(inputs.fingerprint(Presented::Serving), None);
        assert_eq!(inputs.not_after(Presented::Serving), None);
        assert_eq!(inputs.reported(Presented::Serving, false, None), "unknown");
        assert!(inputs.unread_at_boot().is_empty());
    }
    // The bytes between the markers are a leaf as far as a fingerprint goes, and
    // no certificate as far as an expiry goes.
    let odd = "-----BEGIN CERTIFICATE-----\nYWJj\n-----END CERTIFICATE-----\n";
    let inputs = Inputs::new("test").certificate(Presented::Serving, &path, Some(odd.as_bytes()));
    assert_eq!(
        inputs.fingerprint(Presented::Serving).unwrap(),
        "ba7816bf8f01cfea414140de5dae2223b00361a396177a9cb410ff61f20015ad"
    );
    assert_eq!(inputs.not_after(Presented::Serving), None);
    assert!(inputs.export_not_after().is_empty());
}

// What is published.

#[test]
fn the_expiry_reported_is_the_leaf_certificate_not_the_chain() {
    let mount = Mount::new(&generation("yadgar"));

    assert_eq!(
        inputs(&mount).not_after(Presented::Serving),
        Some(LEAF_NOT_AFTER),
        "the first certificate in the file is the one being served"
    );
    assert_ne!(
        inputs(&mount).not_after(Presented::Serving),
        Some(CA_NOT_AFTER),
        "reporting the issuer's expiry would keep the gauge green for a decade"
    );
    assert_eq!(
        inputs(&mount).not_after(Presented::Client),
        Some(CLIENT_NOT_AFTER),
        "the first certificate in the client file is the one being presented"
    );
}

#[test]
fn the_fingerprint_distinguishes_two_certificates() {
    let one = Mount::new(&generation("yadgar"));
    let other = Mount::new(&generation("yadgar"));

    let a = inputs(&one)
        .fingerprint(Presented::Serving)
        .expect("a certificate was read");
    let b = inputs(&other)
        .fingerprint(Presented::Serving)
        .expect("a certificate was read");
    assert_eq!(a.len(), 64, "SHA-256 over the leaf's DER, hex");
    assert_ne!(a, b, "two certificates must not share a fingerprint");

    let client = inputs(&one)
        .fingerprint(Presented::Client)
        .expect("a client certificate was read");
    assert_ne!(
        a, client,
        "the serving and client leaves are different files"
    );
}

#[test]
fn the_expiry_is_exported_under_the_name_a_dashboard_queries() {
    assert_eq!(
        CERTIFICATE_NOT_AFTER, "yadgar_tls_certificate_not_after_seconds",
        "the name is an interface to a dashboard; renaming it blanks the panel"
    );

    let mount = Mount::new(&generation("yadgar"));
    let set = inputs(&mount);
    let emitted = set.export_not_after();
    assert_eq!(
        emitted.len(),
        2,
        "one gauge per certificate this process loaded, and nothing else"
    );
    assert_eq!(
        emitted,
        vec![
            Expiry {
                which: Presented::Serving,
                gauge: Gauge {
                    name: CERTIFICATE_NOT_AFTER,
                    labels: vec![("service", SERVICE), ("kind", "serving")],
                    value: LEAF_NOT_AFTER as i128,
                },
                fingerprint: set.fingerprint(Presented::Serving).unwrap(),
            },
            Expiry {
                which: Presented::Client,
                gauge: Gauge {
                    name: CERTIFICATE_NOT_AFTER,
                    labels: vec![("service", SERVICE), ("kind", "client")],
                    value: CLIENT_NOT_AFTER as i128,
                },
                fingerprint: set.fingerprint(Presented::Client).unwrap(),
            },
        ],
        "each gauge carries the expiry of the leaf it names"
    );
}

#[test]
fn no_certificate_exports_no_gauge() {
    assert!(Inputs::new(SERVICE).export_not_after().is_empty());
}

#[test]
fn an_expiry_is_published_with_its_kind_and_its_name() {
    let expiry = Expiry::of("iam", Presented::Client, -7, "ab".to_string());
    assert_eq!(expiry.gauge.name, CERTIFICATE_NOT_AFTER);
    assert_eq!(
        expiry.gauge.labels,
        vec![("service", "iam"), ("kind", "client")]
    );
    assert_eq!(expiry.gauge.value, -7);
    assert_eq!(expiry.fingerprint, "ab");
    assert_eq!(expiry.which, Presented::Client);
    assert_eq!(Presented::Serving.label(), "serving");
}

#[test]
fn what_is_printed_for_a_certificate_depends_on_both_facts() {
    assert_eq!(shown_as(false, None), "none");
    assert_eq!(shown_as(false, Some("ab".to_string())), "none");
    assert_eq!(shown_as(true, None), "unknown");
    assert_eq!(shown_as(true, Some("ab".to_string())), "ab");
}

#[test]
fn how_many_files_cannot_be_read_is_published_even_when_none_is() {
    assert_eq!(
        WATCHED_FILES_UNREADABLE,
        "yadgar_rotation_watched_files_unreadable"
    );
    let mount = Mount::new(&generation("yadgar"));
    let set = inputs(&mount);
    let all: Vec<Option<Vec<u8>>> = set.watched().iter().map(|p| mount.read(p)).collect();
    assert_eq!(set.export_unreadable(&all), (unreadable_gauge(0), Vec::new()));

    let mut one_gone = all.clone();
    one_gone[2] = None;
    assert_eq!(
        set.export_unreadable(&one_gone),
        (unreadable_gauge(1), vec![mount.path("ca.pem").display()])
    );
    assert_eq!(
        Inputs::new(SERVICE).export_unreadable(&[]),
        (unreadable_gauge(0), Vec::new())
    );
}

// The watch.

#[test]
fn an_atomic_swap_of_a_new_certificate_ends_the_watch() {
    let mut mount = Mount::new(&generation("yadgar"));
    let watched = inputs(&mount);
    mount.swap(&generation("yadgar"));
    assert!(
        ends(watched, &mount, 30),
        "a renewed certificate behind an atomic swap must end the watch"
    );
}

#[test]
fn an_atomic_swap_of_identical_bytes_does_not_end_the_watch() {
    let files = generation("yadgar");
    let mut mount = Mount::new(&files);
    let watched = inputs(&mount);
    mount.swap(&files);
    assert!(
        !ends(watched, &mount, 30),
        "the bytes are identical, so nothing rotated"
    );
}

#[test]
fn a_mount_that_cannot_be_read_does_not_end_the_watch() {
    let mut mount = Mount::new(&generation("yadgar"));
    let watched = inputs(&mount);
    mount.break_it();
    assert!(
        !ends(watched, &mount, 30),
        "an unreadable file is not a changed one; the process must keep serving what it loaded"
    );
}

#[test]
fn nothing_configured_never_ends_the_watch() {
    let mount = Mount::new(&Vec::new());
    assert!(
        !ends(Inputs::new(SERVICE), &mount, 30),
        "an unconfigured deployment has nothing to watch and must never exit on its account"
    );
    let (mut watcher, step) = Watcher::start(Inputs::new(SERVICE), at_once(), 0);
    assert_eq!(step.gauge, None, "an empty watch set publishes nothing");
    assert_eq!(step.notice, Some(Notice::NothingWatched));
    assert_eq!(step.next, Next::Never);
    for event in [
        Event::Polled(vec![Some(b"x".to_vec())]),
        Event::LeavesRead {
            serving: None,
            client: None,
        },
        Event::SplayElapsed,
    ] {
        let step = watcher.advance(event);
        assert_eq!(step.next, Next::Never);
        assert_eq!(step.gauge, None);
        assert_eq!(step.notice, None);
    }
}

#[test]
fn the_watch_ends_only_after_the_splay() {
    let mut mount = Mount::new(&generation("yadgar"));
    let watched = inputs(&mount);
    let before = watched.fingerprint(Presented::Serving).unwrap();
    let client_before = watched.fingerprint(Presented::Client).unwrap();
    let splay = Duration::from_millis(700);
    let schedule = Schedule::new(Duration::from_millis(20), splay);
    let (mut watcher, step) = Watcher::start(watched, schedule, u64::MAX);
    assert_eq!(step.next, Next::PollAfter(Duration::from_millis(20)));
    assert_eq!(step.gauge, Some(unreadable_gauge(0)));
    assert_eq!(step.notice, None);

    mount.swap(&generation("yadgar"));
    let step = poll(&mut watcher, &mount);
    assert_eq!(step.next, Next::ReadLeaves);

    // A splay that was not begun cannot have gone by.
    assert_eq!(
        watcher.advance(Event::SplayElapsed).next,
        Next::ReadLeaves
    );

    let serving = mount.read(&mount.path("tls.pem"));
    let client = mount.read(&mount.path("client.pem"));
    let step = watcher.advance(Event::LeavesRead { serving, client });
    assert_eq!(
        step.next,
        Next::SplayFor(splay),
        "the top of the seed range waits out the whole configured maximum"
    );
    let after = inputs(&mount);
    assert_eq!(
        step.notice,
        Some(Notice::Changed {
            serving_before: before,
            serving_after: after.fingerprint(Presented::Serving).unwrap(),
            client_before,
            client_after: after.fingerprint(Presented::Client).unwrap(),
            changed: [
                "tls.pem",
                "tls-key.pem",
                "ca.pem",
                "client.pem",
                "client-key.pem",
                "broker-password",
                "enrolment-ca.pem"
            ]
            .map(|name| mount.path(name).display())
            .join(", "),
            splay_secs: 0,
        })
    );
    assert_eq!(watcher.pending(), Next::SplayFor(splay));

    let step = watcher.advance(Event::SplayElapsed);
    assert_eq!(step.next, Next::Done);
    assert_eq!(step.notice, Some(Notice::Draining));
    assert_eq!(
        watcher.advance(Event::SplayElapsed).next,
        Next::Done,
        "a watch that has ended stays ended"
    );
}

#[test]
fn the_rotation_line_carries_the_whole_seconds_of_the_splay() {
    let path = FilePath::new("/x/one");
    let inputs = Inputs::new(SERVICE).also(&path, Some(b"1"));
    let splay = Duration::from_millis(1_700);
    let schedule = Schedule::new(Duration::from_millis(20), splay);
    let (mut watcher, _) = Watcher::start(inputs, schedule, u64::MAX);
    watcher.advance(Event::Polled(vec![Some(b"2".to_vec())]));
    let step = watcher.advance(Event::LeavesRead {
        serving: None,
        client: None,
    });
    assert_eq!(step.next, Next::SplayFor(splay));
    assert!(matches!(
        step.notice,
        Some(Notice::Changed { splay_secs: 1, .. })
    ));
}

#[test]
fn each_watched_file_ends_the_watch_on_its_own() {
    for name in NAMES {
        let base = generation("yadgar");
        let mut mount = Mount::new(&base);
        let watched = inputs(&mount);
        // A replacement minted independently, so the new contents cannot coincide
        // with the old by construction.
        let fresh = generation("yadgar");
        let replacement = fresh
            .iter()
            .find(|(n, _)| n == name)
            .map(|(_, c)| c.clone())
            .expect("the fresh generation holds that file");
        mount.swap(&with_replaced(&base, name, &replacement));
        assert!(
            ends(watched, &mount, 3),
            "rotating {name} alone did not end the watch, so it is not being watched"
        );
    }
}

#[test]
fn exchanging_the_contents_of_two_watched_files_ends_the_watch() {
    let base = generation("yadgar");
    let mut mount = Mount::new(&base);
    let watched = inputs(&mount);
    mount.swap(&with_exchanged(&base, "tls-key.pem", "ca.pem"));
    assert!(
        ends(watched, &mount, 3),
        "the same bytes in different files are different inputs"
    );
}

#[test]
fn the_baseline_is_what_was_loaded_not_what_is_on_disk_later() {
    let mut mount = Mount::new(&generation("yadgar"));
    let watched = inputs(&mount);
    let loaded = watched
        .fingerprint(Presented::Serving)
        .expect("a certificate was read");
    let loaded_client = watched
        .fingerprint(Presented::Client)
        .expect("a client certificate was read");

    // The whole mount is replaced before the watcher has polled once.
    mount.swap(&generation("yadgar"));

    assert_eq!(
        watched.fingerprint(Presented::Serving),
        Some(loaded),
        "the fingerprint must name the loaded certificate, not the one now on disk"
    );
    assert_eq!(
        watched.fingerprint(Presented::Client),
        Some(loaded_client),
        "and the same for the client leaf, which fails harder when it is stale"
    );
    assert_eq!(
        watched.not_after(Presented::Serving),
        Some(LEAF_NOT_AFTER),
        "and so must the expiry the gauge carries"
    );
    assert!(
        ends(watched, &mount, 3),
        "a swap that landed before the first poll is still a rotation"
    );
}

#[test]
fn a_file_that_could_not_be_read_at_boot_is_loud_and_then_a_rotation() {
    let absent = FilePath::new("/x/absent");
    let other = FilePath::new("/x/other");
    let gone = FilePath::new("/x/gone");
    let inputs = Inputs::new(SERVICE)
        .also(&absent, None)
        .also(&other, Some(b"o"))
        .also(&gone, None);
    let (mut watcher, step) = Watcher::start(inputs, at_once(), 0);
    assert_eq!(step.gauge, Some(unreadable_gauge(2)));
    assert_eq!(
        step.notice,
        Some(Notice::UnreadAtBoot {
            unreadable: "/x/absent, /x/gone".to_string(),
            watched: 3,
        })
    );

    let step = watcher.advance(Event::Polled(vec![
        Some(b"appeared".to_vec()),
        Some(b"o".to_vec()),
        None,
    ]));
    assert_eq!(step.gauge, Some(unreadable_gauge(1)));
    assert_eq!(step.next, Next::ReadLeaves);
    let step = watcher.advance(Event::LeavesRead {
        serving: None,
        client: None,
    });
    assert_eq!(
        step.notice,
        Some(Notice::Changed {
            serving_before: "none".to_string(),
            serving_after: "none".to_string(),
            client_before: "none".to_string(),
            client_after: "none".to_string(),
            changed: "/x/absent".to_string(),
            splay_secs: 0,
        })
    );
}

#[test]
fn the_unreadable_files_are_logged_when_they_change_and_counted_always() {
    let one = FilePath::new("/x/one");
    let other = FilePath::new("/x/other");
    let inputs = Inputs::new(SERVICE)
        .also(&one, Some(b"1"))
        .also(&other, Some(b"2"));
    let (mut watcher, _) = Watcher::start(inputs, at_once(), 0);
    let readable = || vec![Some(b"1".to_vec()), Some(b"2".to_vec())];
    let half = || vec![None, Some(b"2".to_vec())];
    let unreadable = |names: &str| {
        Some(Notice::Unreadable {
            unreadable: names.to_string(),
        })
    };

    for (contents, count, notice) in [
        (readable(), 0, None),
        (half(), 1, unreadable("/x/one")),
        (half(), 1, None),
        (vec![], 2, unreadable("/x/one, /x/other")),
        (vec![None, None], 2, None),
        (readable(), 0, None),
        (half(), 1, unreadable("/x/one")),
    ] {
        let step = watcher.advance(Event::Polled(contents));
        assert_eq!(step.gauge, Some(unreadable_gauge(count)));
        assert_eq!(step.notice, notice);
        assert_eq!(step.next, Next::PollAfter(Duration::from_millis(20)));
    }
}

#[test]
fn one_unreadable_file_hides_no_rotation_of_another() {
    let one = FilePath::new("/x/one");
    let other = FilePath::new("/x/other");
    let inputs = Inputs::new(SERVICE)
        .also(&one, Some(b"1"))
        .also(&other, Some(b"2"));
    let (mut watcher, _) = Watcher::start(inputs, at_once(), 0);
    let rotated: [u8; 32] = [9; 32];
    // Both changed but one unreadable: the other is named, and nothing else.
    let set = Inputs::new(SERVICE)
        .also(&one, Some(b"1"))
        .also(&other, Some(b"2"));
    assert_eq!(
        set.differing(&[Some(rotated), Some(rotated)]),
        vec!["/x/one".to_string(), "/x/other".to_string()]
    );
    assert_eq!(
        set.differing(&[None, Some(rotated)]),
        vec!["/x/other".to_string()]
    );
    let step = watcher.compare(&[None, Some(rotated)]);
    assert_eq!(step.next, Next::ReadLeaves);
    assert_eq!(step.gauge, Some(unreadable_gauge(1)));
    // While the certificates are being read again, another poll is not looked
    // at.
    let step = watcher.compare(&[None, None]);
    assert_eq!(step.next, Next::ReadLeaves);
    assert_eq!(step.gauge, None);
}

#[test]
fn inputs_an_absent_certificate_reads_differently_from_an_unreadable_one() {
    an_absent_certificate_reads_differently_from_an_unreadable_one();
}

#[test]
fn inputs_nothing_configured_is_empty() {
    nothing_configured_is_empty();
}

#[test]
fn inputs_an_unreadable_input_has_no_baseline() {
    an_unreadable_input_has_no_baseline();
}

#[test]
fn inputs_an_unreadable_input_does_not_erase_the_baselines_beside_it() {
    an_unreadable_input_does_not_erase_the_baselines_beside_it();
}

#[test]
fn inputs_a_file_with_no_baseline_that_now_reads_is_a_change() {
    a_file_with_no_baseline_that_now_reads_is_a_change();
}

#[test]
fn inputs_a_file_named_twice_is_watched_once() {
    a_file_named_twice_is_watched_once();
}
