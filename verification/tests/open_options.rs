use ruxfs::fops::OpenOptions;

fn opts(
    read: bool,
    write: bool,
    append: bool,
    truncate: bool,
    create: bool,
    create_new: bool,
) -> OpenOptions {
    let mut o = OpenOptions::new();
    o.read(read);
    o.write(write);
    o.append(append);
    o.truncate(truncate);
    o.create(create);
    o.create_new(create_new);
    o
}

/// The validity rules, written independently of the implementation:
/// some access must be requested, and truncate/create/create-new are
/// only honored with write, or (truncate) with append plus create-new.
fn expected_valid(o: &OpenOptions) -> bool {
    if !o.read && !o.write && !o.append {
        return false;
    }
    if o.write && !o.append {
        true
    } else if !o.write && !o.append {
        !(o.truncate || o.create || o.create_new)
    } else {
        !(o.truncate && !o.create_new)
    }
}

#[test]
fn new_is_blank() {
    let o = OpenOptions::new();
    assert!(!o.read && !o.write && !o.append);
    assert!(!o.truncate && !o.create && !o.create_new && !o.cloexec);
}

#[test]
fn valid_read_only() {
    assert!(opts(true, false, false, false, false, false).is_valid());
}

#[test]
fn valid_write_with_create_and_truncate() {
    assert!(opts(false, true, false, true, true, false).is_valid());
    assert!(opts(true, true, false, false, true, true).is_valid());
}

#[test]
fn invalid_no_access() {
    assert!(!opts(false, false, false, false, false, false).is_valid());
    assert!(!opts(false, false, false, true, true, true).is_valid());
}

#[test]
fn invalid_read_only_with_create_flags() {
    assert!(!opts(true, false, false, true, false, false).is_valid());
    assert!(!opts(true, false, false, false, true, false).is_valid());
    assert!(!opts(true, false, false, false, false, true).is_valid());
}

#[test]
fn append_truncate_needs_create_new() {
    assert!(!opts(false, false, true, true, false, false).is_valid());
    assert!(!opts(false, true, true, true, false, false).is_valid());
    assert!(opts(false, false, true, true, false, true).is_valid());
    assert!(opts(false, true, true, true, false, true).is_valid());
}

#[test]
fn append_alone_is_valid() {
    assert!(opts(false, false, true, false, false, false).is_valid());
    assert!(opts(false, false, true, false, true, false).is_valid());
}

#[test]
fn cloexec_never_affects_validity() {
    for bits in 0u32..64 {
        let mut o = opts(
            bits & 1 != 0,
            bits & 2 != 0,
            bits & 4 != 0,
            bits & 8 != 0,
            bits & 16 != 0,
            bits & 32 != 0,
        );
        let before = o.is_valid();
        o.cloexec(true);
        assert_eq!(o.is_valid(), before);
    }
}

#[test]
fn validity_matches_rules_for_every_combination() {
    for bits in 0u32..64 {
        let o = opts(
            bits & 1 != 0,
            bits & 2 != 0,
            bits & 4 != 0,
            bits & 8 != 0,
            bits & 16 != 0,
            bits & 32 != 0,
        );
        assert_eq!(o.is_valid(), expected_valid(&o), "combination {:#08b}", bits);
    }
}

#[test]
fn to_cap_carries_read_and_write_only() {
    let c = opts(true, false, false, false, false, false).to_cap();
    assert!(c.read && !c.write && !c.execute);
    let c = opts(true, true, false, false, false, false).to_cap();
    assert!(c.read && c.write && !c.execute);
    // append alone demands no write right: the mask comes from the
    // read/write flags only
    let c = opts(false, false, true, false, false, false).to_cap();
    assert!(!c.read && !c.write && !c.execute);
}
