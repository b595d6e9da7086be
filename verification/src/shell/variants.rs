//! The list of mech variant files: the stock ones of the project file and the
//! user's own in the `MEK` folder.

use vstd::prelude::*;

verus! {

/// The size of one slot of the variant list, with its terminating zeros.
pub const SLOT_LEN: usize = 13;

/// The name of stock variant `n` of `mech_type`: the type, two digits, `std`.
pub open spec fn variant_name_spec(mech_type: Seq<u8>, n: nat) -> Seq<u8> {
    mech_type + seq![(48 + n / 10) as u8, (48 + n % 10) as u8, 115u8, 116, 100]
}

/// The name of stock variant `n` (`0..100`) of `mech_type`.
pub fn variant_name(mech_type: &[u8], n: u32) -> (name: Vec<u8>)
    requires
        n < 100,
    ensures
        name@ == variant_name_spec(mech_type@, n as nat),
{
    let mut name: Vec<u8> = Vec::new();
    let mut i: usize = 0;
    while i < mech_type.len()
        invariant
            i <= mech_type@.len(),
            name@ == mech_type@.take(i as int),
        decreases mech_type@.len() - i,
    {
        name.push(mech_type[i]);
        i += 1;
        assert(name@ =~= mech_type@.take(i as int));
    }
    name.push((48 + n / 10) as u8);
    name.push((48 + n % 10) as u8);
    name.push(115);
    name.push(116);
    name.push(100);
    assert(name@ =~= variant_name_spec(mech_type@, n as nat));
    name
}

/// A slot of the list holding `name`: the name, then zeros.
pub fn slot_bytes(name: &[u8]) -> (slot: Vec<u8>)
    requires
        name@.len() < SLOT_LEN,
    ensures
        slot@.len() == SLOT_LEN,
        slot@.take(name@.len() as int) == name@,
        forall|i: int| name@.len() <= i < SLOT_LEN ==> slot@[i] == 0,
{
    let mut slot: Vec<u8> = Vec::new();
    let mut i: usize = 0;
    while i < SLOT_LEN
        invariant
            i <= SLOT_LEN,
            name@.len() < SLOT_LEN,
            slot@.len() == i,
            forall|j: int| 0 <= j < i ==> slot@[j] == if j < name@.len() {
                name@[j]
            } else {
                0u8
            },
        decreases SLOT_LEN - i,
    {
        if i < name.len() {
            slot.push(name[i]);
        } else {
            slot.push(0);
        }
        i += 1;
    }
    assert(slot@.take(name@.len() as int) =~= name@);
    slot
}

pub open spec fn ascii_lower(b: u8) -> u8 {
    if 65 <= b <= 90 {
        (b + 32) as u8
    } else {
        b
    }
}

/// Whether `a` and `b` are the same but for the case of ASCII letters.
pub open spec fn eq_ignore_ascii_case(a: Seq<u8>, b: Seq<u8>) -> bool {
    a.len() == b.len() && forall|i: int| 0 <= i < a.len() ==> ascii_lower(a[i]) == ascii_lower(b[i])
}

/// Whether byte `i` of `s` continues a UTF-8 character, so that a string can
/// not be cut there.
pub open spec fn inside_char(s: Seq<u8>, i: int) -> bool {
    0 < i < s.len() && 0x80 <= s[i] < 0xC0
}

/// `usr.mek`, in ASCII.
pub open spec fn usr_mek() -> Seq<u8> {
    seq![117u8, 115, 114, 46, 109, 101, 107]
}

/// Whether a user file name is one of `mech_type`'s variants: twelve bytes,
/// the type, two digits, `usr.mek`, letters in any case.
pub open spec fn is_user_variant(name: Seq<u8>, mech_type: Seq<u8>) -> bool {
    &&& name.len() == 12
    &&& eq_ignore_ascii_case(name.subrange(0, 3), mech_type)
    &&& 48 <= name[3] <= 57
    &&& 48 <= name[4] <= 57
    &&& eq_ignore_ascii_case(name.subrange(5, 12), usr_mek())
}

/// The names a string cannot be cut at to compare: a twelve-byte name whose
/// fourth byte (or, once the type matches, sixth byte) continues a character.
pub open spec fn user_variant_name_faults(name: Seq<u8>, mech_type: Seq<u8>) -> bool {
    name.len() == 12 && (inside_char(name, 3) || (eq_ignore_ascii_case(name.subrange(0, 3), mech_type)
        && inside_char(name, 5)))
}

fn eq_ignore_case_at(name: &[u8], start: usize, other: &[u8], len: usize) -> (b: bool)
    requires
        start + len <= name@.len(),
    ensures
        b == eq_ignore_ascii_case(name@.subrange(start as int, start + len), other@),
{
    if other.len() != len {
        return false;
    }
    let mut i: usize = 0;
    let total = name.len();
    while i < len
        invariant
            total == name@.len(),
            i <= len == other@.len(),
            start + len <= name@.len(),
            forall|j: int| 0 <= j < i ==> ascii_lower(name@[start + j]) == ascii_lower(other@[j]),
        decreases len - i,
    {
        let a = name[start + i];
        let b = other[i];
        let la = if 65 <= a && a <= 90 {
            a + 32
        } else {
            a
        };
        let lb = if 65 <= b && b <= 90 {
            b + 32
        } else {
            b
        };
        if la != lb {
            return false;
        }
        i += 1;
    }
    true
}

/// The slot a user file goes to, when it is one of `mech_type`'s variants:
/// 100 plus its two digits.
pub fn user_variant_slot(name: &[u8], mech_type: &[u8]) -> (r: Option<usize>)
    requires
        !user_variant_name_faults(name@, mech_type@),
    ensures
        match r {
            Some(i) => is_user_variant(name@, mech_type@) && i == 100 + (name@[3] - 48) * 10 + (
            name@[4] - 48),
            None => !is_user_variant(name@, mech_type@),
        },
{
    if name.len() != 12 {
        return None;
    }
    if !eq_ignore_case_at(name, 0, mech_type, 3) {
        return None;
    }
    let (d0, d1) = (name[3], name[4]);
    if !(48 <= d0 && d0 <= 57 && 48 <= d1 && d1 <= 57) {
        return None;
    }
    let suffix: [u8; 7] = [117, 115, 114, 46, 109, 101, 107];
    if !eq_ignore_case_at(name, 5, &suffix, 7) {
        return None;
    }
    proof {
        assert(suffix@ =~= usr_mek());
    }
    Some(100 + ((d0 - 48) as usize) * 10 + (d1 - 48) as usize)
}

/// The number of slots of the variant list.
pub const LIST_SLOTS: usize = 200;

/// The number of stock variants that the project file may hold after the
/// default one.
pub const STOCK_VARIANTS: usize = 99;

/// A slot holding `name`: the name, then zeros.
pub open spec fn slot_spec(name: Seq<u8>) -> Seq<u8> {
    name + Seq::new((SLOT_LEN - name.len()) as nat, |k: int| 0u8)
}

/// An empty slot.
pub open spec fn empty_slot() -> Seq<u8> {
    Seq::new(SLOT_LEN as nat, |k: int| 0u8)
}

/// The slot of a user variant file: 100 plus its two digits.
pub open spec fn user_slot_index(name: Seq<u8>) -> int {
    100 + (name[3] - 48) * 10 + (name[4] - 48)
}

/// The list after the user's files were taken in order: each variant of
/// `mech_type` fills its slot with the first eight bytes of its name (its
/// name without `.mek`), a later file overwriting an earlier one.
pub open spec fn with_user_files(table: Seq<Seq<u8>>, files: Seq<Seq<u8>>, mech_type: Seq<u8>) -> Seq<Seq<u8>>
    decreases files.len(),
{
    if files.len() == 0 {
        table
    } else {
        let t = with_user_files(table, files.drop_last(), mech_type);
        let f = files.last();
        if is_user_variant(f, mech_type) {
            t.update(user_slot_index(f), slot_spec(f.take(8)))
        } else {
            t
        }
    }
}

/// The stock part of the list: the default variant in slot 0, then each
/// variant `1..100` that the project file holds in its own slot.
pub open spec fn stock_table(mech_type: Seq<u8>, stock_found: Seq<bool>) -> Seq<Seq<u8>> {
    Seq::new(
        LIST_SLOTS as nat,
        |i: int|
            if i == 0 {
                slot_spec(variant_name_spec(mech_type, 0))
            } else if i < 100 && stock_found[i - 1] {
                slot_spec(variant_name_spec(mech_type, i as nat))
            } else {
                empty_slot()
            },
    )
}

/// The whole variant list.
pub open spec fn variant_list(mech_type: Seq<u8>, stock_found: Seq<bool>, files: Seq<Seq<u8>>) -> Seq<Seq<u8>> {
    with_user_files(stock_table(mech_type, stock_found), files, mech_type)
}

/// The list of mech variants of `mech_type`: `stock_found[i]` says whether
/// the project file holds stock variant `i + 1`, and `files` are the names
/// in the user's `MEK` folder, in the order the folder lists them.
pub fn load_mech_variant_list(mech_type: &[u8], stock_found: &[bool], files: &Vec<Vec<u8>>) -> (list: Vec<Vec<u8>>)
    requires
        mech_type@.len() + 5 < SLOT_LEN,
        stock_found@.len() == STOCK_VARIANTS,
        forall|k: int| 0 <= k < files@.len() ==> !user_variant_name_faults(#[trigger] files@[k]@, mech_type@),
    ensures
        list@.len() == LIST_SLOTS,
        forall|i: int| 0 <= i < LIST_SLOTS ==> #[trigger] list@[i]@ == variant_list(mech_type@, stock_found@, files@.map_values(|f: Vec<u8>| f@))[i],
{
    let mut list: Vec<Vec<u8>> = Vec::new();
    let mut i: usize = 0;
    while i < LIST_SLOTS
        invariant
            i <= LIST_SLOTS,
            mech_type@.len() + 5 < SLOT_LEN,
            stock_found@.len() == STOCK_VARIANTS,
            list@.len() == i,
            forall|k: int| 0 <= k < i ==> #[trigger] list@[k]@ == stock_table(mech_type@, stock_found@)[k],
        decreases LIST_SLOTS - i,
    {
        let slot = if i == 0 || (i < 100 && stock_found[i - 1]) {
            let name = variant_name(mech_type, i as u32);
            slot_of(name.as_slice())
        } else {
            slot_of(&[])
        };
        proof {
            assert(slot_spec(Seq::<u8>::empty()) =~= empty_slot());
        }
        list.push(slot);
        i = i + 1;
    }
    let ghost stock = stock_table(mech_type@, stock_found@);
    let ghost models = files@.map_values(|f: Vec<u8>| f@);
    let mut k: usize = 0;
    while k < files.len()
        invariant
            k <= files@.len(),
            list@.len() == LIST_SLOTS,
            models == files@.map_values(|f: Vec<u8>| f@),
            forall|j: int| 0 <= j < files@.len() ==> !user_variant_name_faults(#[trigger] files@[j]@, mech_type@),
            forall|s: int| 0 <= s < LIST_SLOTS ==> #[trigger] list@[s]@ == with_user_files(stock, models.take(k as int), mech_type@)[s],
            with_user_files(stock, models.take(k as int), mech_type@).len() == LIST_SLOTS,
        decreases files@.len() - k,
    {
        let name = &files[k];
        let ghost before = with_user_files(stock, models.take(k as int), mech_type@);
        proof {
            assert(models.take(k + 1).drop_last() =~= models.take(k as int));
            assert(models.take(k + 1).last() == name@);
        }
        match user_variant_slot(name.as_slice(), mech_type) {
            Some(index) => {
                let mut prefix: Vec<u8> = Vec::new();
                let mut j: usize = 0;
                while j < 8
                    invariant
                        j <= 8,
                        name@.len() == 12,
                        prefix@ == name@.take(j as int),
                    decreases 8 - j,
                {
                    prefix.push(name[j]);
                    j = j + 1;
                    assert(prefix@ =~= name@.take(j as int));
                }
                let slot = slot_of(prefix.as_slice());
                list.set(index, slot);
                assert(with_user_files(stock, models.take(k + 1), mech_type@) == before.update(
                    index as int,
                    slot_spec(name@.take(8)),
                ));
            },
            None => {
                assert(with_user_files(stock, models.take(k + 1), mech_type@) == before);
            },
        }
        k = k + 1;
    }
    assert(models.take(files@.len() as int) =~= models);
    list
}

/// Reloads the variant list of `mech_type` into `list`, as the mech lab does
/// when it shows a chassis. A mech type that is not UTF-8 leaves the list as
/// it was; otherwise the list becomes `load_mech_variant_list`'s. Returns
/// whether the list was loaded.
pub fn refresh_mech_variant_list(
    list: &mut Vec<Vec<u8>>,
    mech_type: &[u8],
    stock_found: &[bool],
    files: &Vec<Vec<u8>>,
) -> (loaded: bool)
    requires
        vstd::utf8::valid_utf8(mech_type@) ==> {
            &&& mech_type@.len() + 5 < SLOT_LEN
            &&& stock_found@.len() == STOCK_VARIANTS
            &&& forall|k: int| 0 <= k < files@.len() ==> !user_variant_name_faults(#[trigger] files@[k]@, mech_type@)
        },
    ensures
        loaded == vstd::utf8::valid_utf8(mech_type@),
        !loaded ==> final(list)@ == old(list)@,
        loaded ==> final(list)@.len() == LIST_SLOTS,
        loaded ==> forall|i: int| 0 <= i < LIST_SLOTS ==> #[trigger] final(list)@[i]@ == variant_list(mech_type@, stock_found@, files@.map_values(|f: Vec<u8>| f@))[i],
{
    if crate::text::utf8_str(mech_type).is_none() {
        return false;
    }
    *list = load_mech_variant_list(mech_type, stock_found, files);
    true
}

/// A slot of the list holding `name`.
fn slot_of(name: &[u8]) -> (slot: Vec<u8>)
    requires
        name@.len() < SLOT_LEN,
    ensures
        slot@ == slot_spec(name@),
{
    let slot = slot_bytes(name);
    assert(slot@ =~= slot_spec(name@));
    slot
}

/// Every list holds the default variant in its first slot, whatever the
/// project file and the user's folder hold.
pub proof fn lemma_default_variant_always_listed(mech_type: Seq<u8>, stock_found: Seq<bool>, files: Seq<Seq<u8>>)
    ensures
        variant_list(mech_type, stock_found, files).len() == LIST_SLOTS,
        variant_list(mech_type, stock_found, files)[0] == slot_spec(variant_name_spec(mech_type, 0)),
    decreases files.len(),
{
    if files.len() > 0 {
        lemma_default_variant_always_listed(mech_type, stock_found, files.drop_last());
        let f = files.last();
        if is_user_variant(f, mech_type) {
            assert(user_slot_index(f) >= 100);
        }
    }
}

} // verus!
