//! The record repository: the collection's data model and the pure
//! load-transform-save transforms over it.
//!
//! Every operation here works on an in-memory collection (`Vec<Car>`); the
//! caller materializes the collection from the backing store before the call
//! and persists the result afterwards, so the file is the single source of
//! truth and no collection value outlives one operation.

use vstd::prelude::*;

verus! {

/// The failure taxonomy of the store. Storage failures (configuration,
/// filesystem, malformed contents) are raised by the storage layer; the
/// repository transforms themselves fail only with the two semantic errors.
#[derive(Clone, Copy, Debug, PartialEq, Eq, Structural)]
pub enum DbError {
    /// The environment configuration naming the backing file is missing.
    ConfigError,
    /// The backing file could not be read or written.
    IOError,
    /// The backing file's contents do not parse as a collection.
    FormatError,
    /// `create` found the registration number already taken.
    DuplicateKeyError,
    /// `update` or `delete` found no record under the key.
    NotFoundError,
}

/// The mathematical value of one record: each text field as a sequence of
/// characters.
pub struct CarView {
    pub reg_num: Seq<char>,
    pub brand: Seq<char>,
    pub model: Seq<char>,
    pub year: u16,
    pub color: Seq<char>,
}

/// One vehicle record. `reg_num` is the unique, case-sensitive key of the
/// record; it is never changed by an update.
#[derive(Debug, PartialEq)]
pub struct Car {
    pub reg_num: String,
    pub brand: String,
    pub model: String,
    pub year: u16,
    pub color: String,
}

impl View for Car {
    type V = CarView;

    open spec fn view(&self) -> CarView {
        CarView {
            reg_num: self.reg_num@,
            brand: self.brand@,
            model: self.model@,
            year: self.year,
            color: self.color@,
        }
    }
}

impl Clone for Car {
    fn clone(&self) -> (r: Self)
        ensures
            r == *self,
    {
        Car {
            reg_num: self.reg_num.clone(),
            brand: self.brand.clone(),
            model: self.model.clone(),
            year: self.year,
            color: self.color.clone(),
        }
    }
}

/// The mathematical value of an update payload.
pub struct UpdateCarView {
    pub reg_num: Seq<char>,
    pub brand: Option<Seq<char>>,
    pub model: Option<Seq<char>>,
    pub year: Option<u16>,
    pub color: Option<Seq<char>>,
}

/// An update payload: the key of the record to change, and for every other
/// field either a replacement value or `None` for "leave unchanged".
pub struct UpdateCar {
    pub reg_num: String,
    pub brand: Option<String>,
    pub model: Option<String>,
    pub year: Option<u16>,
    pub color: Option<String>,
}

impl View for UpdateCar {
    type V = UpdateCarView;

    open spec fn view(&self) -> UpdateCarView {
        UpdateCarView {
            reg_num: self.reg_num@,
            brand: match self.brand {
                Some(s) => Some(s@),
                None => None,
            },
            model: match self.model {
                Some(s) => Some(s@),
                None => None,
            },
            year: self.year,
            color: match self.color {
                Some(s) => Some(s@),
                None => None,
            },
        }
    }
}

/// The result of merging an update payload into a record: present fields of
/// the payload overwrite, absent fields keep the record's value, and the key
/// is kept whatever the payload says.
pub open spec fn merged(c: CarView, p: UpdateCarView) -> CarView {
    CarView {
        reg_num: c.reg_num,
        brand: match p.brand {
            Some(b) => b,
            None => c.brand,
        },
        model: match p.model {
            Some(m) => m,
            None => c.model,
        },
        year: match p.year {
            Some(y) => y,
            None => c.year,
        },
        color: match p.color {
            Some(col) => col,
            None => c.color,
        },
    }
}

impl Car {
    /// Returns this record with the payload merged in: every field present in
    /// `new` is overwritten, every absent field keeps its current value, and
    /// the registration number stays this record's own.
    pub fn update_with(&self, new: UpdateCar) -> (r: Car)
        ensures
            r@ == merged(self@, new@),
    {
        Car {
            reg_num: self.reg_num.clone(),
            brand: match new.brand {
                Some(b) => b,
                None => self.brand.clone(),
            },
            model: match new.model {
                Some(m) => m,
                None => self.model.clone(),
            },
            year: match new.year {
                Some(y) => y,
                None => self.year,
            },
            color: match new.color {
                Some(c) => c,
                None => self.color.clone(),
            },
        }
    }
}

/// The collection as a mathematical value: the records' views, in order.
pub open spec fn views(cars: Seq<Car>) -> Seq<CarView> {
    cars.map_values(|c: Car| c@)
}

/// Whether some record of `s` carries the key.
pub open spec fn has_key(s: Seq<CarView>, key: Seq<char>) -> bool {
    exists|i: int| 0 <= i < s.len() && s[i].reg_num == key
}

/// The position of the first record carrying the key (meaningful only when
/// `has_key` holds).
pub open spec fn key_idx(s: Seq<CarView>, key: Seq<char>) -> int
    decreases s.len(),
{
    if s.len() == 0 {
        0
    } else if s[0].reg_num == key {
        0
    } else {
        1 + key_idx(s.skip(1), key)
    }
}

/// What a lookup by key returns: the first record carrying the key, if any.
pub open spec fn find_spec(s: Seq<CarView>, key: Seq<char>) -> Option<CarView> {
    if has_key(s, key) {
        Some(s[key_idx(s, key)])
    } else {
        None
    }
}

/// The collection with every record carrying the key removed; the survivors
/// keep their relative order.
pub open spec fn remove_key(s: Seq<CarView>, key: Seq<char>) -> Seq<CarView>
    decreases s.len(),
{
    if s.len() == 0 {
        Seq::empty()
    } else {
        let rest = remove_key(s.drop_last(), key);
        if s.last().reg_num == key {
            rest
        } else {
            rest.push(s.last())
        }
    }
}

/// The collection invariant: no two records share a registration number.
pub open spec fn unique_keys(s: Seq<CarView>) -> bool {
    forall|i: int, j: int|
        #![trigger s[i], s[j]]
        0 <= i < j < s.len() ==> s[i].reg_num != s[j].reg_num
}

/// When the key occurs at all, `key_idx` names a real position, that position
/// carries the key, and no earlier one does.
pub proof fn lemma_key_idx(s: Seq<CarView>, key: Seq<char>)
    requires
        has_key(s, key),
    ensures
        0 <= key_idx(s, key) < s.len(),
        s[key_idx(s, key)].reg_num == key,
        forall|j: int| 0 <= j < key_idx(s, key) ==> s[j].reg_num != key,
    decreases s.len(),
{
    if s[0].reg_num == key {
    } else {
        let w = choose|i: int| 0 <= i < s.len() && s[i].reg_num == key;
        assert(s.skip(1)[w - 1] == s[w]);
        assert(has_key(s.skip(1), key));
        lemma_key_idx(s.skip(1), key);
        assert forall|j: int| 0 <= j < key_idx(s, key) implies s[j].reg_num != key by {
            if j > 0 {
                assert(s.skip(1)[j - 1] == s[j]);
            }
        }
    }
}

/// Position of the first record of `cars` whose registration number equals
/// `key`, or `None` when no record carries it.
fn find_index(cars: &Vec<Car>, key: &String) -> (r: Option<usize>)
    ensures
        match r {
            Some(i) => has_key(views(cars@), key@) && i == key_idx(views(cars@), key@),
            None => !has_key(views(cars@), key@),
        },
{
    let ghost s = views(cars@);
    let mut i: usize = 0;
    while i < cars.len()
        invariant
            i <= cars.len(),
            s == views(cars@),
            forall|j: int| 0 <= j < i ==> s[j].reg_num != key@,
        decreases cars.len() - i,
    {
        if cars[i].reg_num == *key {
            proof {
                assert(s[i as int] == cars@[i as int]@);
                assert(has_key(s, key@));
                lemma_key_idx(s, key@);
                assert(key_idx(s, key@) == i as int);
            }
            return Some(i);
        }
        assert(s[i as int] == cars@[i as int]@);
        i += 1;
    }
    assert(!has_key(s, key@));
    None
}

/// Lookup by key: the first (by the collection invariant, only) record whose
/// registration number equals `reg_num`, cloned out of the collection.
pub fn get(cars: &Vec<Car>, reg_num: &String) -> (r: Option<Car>)
    ensures
        match r {
            Some(c) => find_spec(views(cars@), reg_num@) == Some(c@),
            None => find_spec(views(cars@), reg_num@) is None,
        },
{
    match find_index(cars, reg_num) {
        Some(i) => {
            proof {
                lemma_key_idx(views(cars@), reg_num@);
            }
            Some(cars[i].clone())
        },
        None => None,
    }
}

/// Insert: fails with `DuplicateKeyError` when the key is already taken,
/// otherwise appends the record at the end, keeping arrival order.
pub fn create(cars: Vec<Car>, car: Car) -> (r: Result<Vec<Car>, DbError>)
    ensures
        match r {
            Ok(out) => !has_key(views(cars@), car.reg_num@) && views(out@) == views(
                cars@,
            ).push(car@),
            Err(e) => has_key(views(cars@), car.reg_num@) && e == DbError::DuplicateKeyError,
        },
{
    match find_index(&cars, &car.reg_num) {
        Some(_) => Err(DbError::DuplicateKeyError),
        None => {
            let mut out = cars;
            out.push(car);
            proof {
                assert(views(out@) =~= views(cars@).push(car@));
            }
            Ok(out)
        },
    }
}

/// Merge-update: merges the payload into `old_car`, then replaces, in place,
/// the first record carrying that key. Fails with `NotFoundError` when no
/// record carries it (the record vanished between lookup and rewrite).
pub fn update(cars: Vec<Car>, old_car: Car, new_car: UpdateCar) -> (r: Result<Vec<Car>, DbError>)
    ensures
        match r {
            Ok(out) => has_key(views(cars@), old_car.reg_num@) && views(out@) == views(
                cars@,
            ).update(key_idx(views(cars@), old_car.reg_num@), merged(old_car@, new_car@)),
            Err(e) => !has_key(views(cars@), old_car.reg_num@) && e == DbError::NotFoundError,
        },
{
    let updated = old_car.update_with(new_car);
    match find_index(&cars, &updated.reg_num) {
        Some(i) => {
            proof {
                lemma_key_idx(views(cars@), old_car.reg_num@);
            }
            let mut out = cars;
            out[i] = updated;
            proof {
                assert(views(out@) =~= views(cars@).update(
                    key_idx(views(cars@), old_car.reg_num@),
                    merged(old_car@, new_car@),
                ));
            }
            Ok(out)
        },
        None => Err(DbError::NotFoundError),
    }
}

/// Removal: fails with `NotFoundError` when no record carries the key,
/// otherwise keeps exactly the records with a different key, in their
/// original relative order.
pub fn delete(cars: Vec<Car>, reg_num: &String) -> (r: Result<Vec<Car>, DbError>)
    ensures
        match r {
            Ok(out) => has_key(views(cars@), reg_num@) && views(out@) == remove_key(
                views(cars@),
                reg_num@,
            ),
            Err(e) => !has_key(views(cars@), reg_num@) && e == DbError::NotFoundError,
        },
{
    match find_index(&cars, reg_num) {
        None => Err(DbError::NotFoundError),
        Some(_) => {
            let ghost s = views(cars@);
            let mut out: Vec<Car> = Vec::new();
            proof {
                assert(s.subrange(0, 0) =~= Seq::<CarView>::empty());
                assert(views(out@) =~= Seq::<CarView>::empty());
            }
            let mut i: usize = 0;
            while i < cars.len()
                invariant
                    i <= cars.len(),
                    s == views(cars@),
                    views(out@) == remove_key(s.subrange(0, i as int), reg_num@),
                decreases cars.len() - i,
            {
                let ghost pre = s.subrange(0, i as int);
                let ghost cur = s.subrange(0, i as int + 1);
                proof {
                    assert(cur.drop_last() =~= pre);
                    assert(cur.last() == s[i as int]);
                    assert(s[i as int] == cars@[i as int]@);
                }
                if cars[i].reg_num == *reg_num {
                    proof {
                        assert(remove_key(cur, reg_num@) == remove_key(pre, reg_num@));
                    }
                } else {
                    out.push(cars[i].clone());
                    proof {
                        assert(views(out@) =~= remove_key(pre, reg_num@).push(s[i as int]));
                        assert(remove_key(cur, reg_num@) == remove_key(pre, reg_num@).push(
                            s[i as int],
                        ));
                    }
                }
                i += 1;
            }
            proof {
                assert(s.subrange(0, cars@.len() as int) =~= s);
            }
            Ok(out)
        },
    }
}

/// The storage-initialization decision: the backing file is to be written
/// with an empty collection exactly when it does not exist yet. An existing
/// file — whatever it holds — is never rewritten, so initializing any number
/// of times cannot corrupt or empty an already-populated collection.
pub fn needs_bootstrap(file_exists: bool) -> (write_empty: bool)
    ensures
        write_empty == !file_exists,
{
    !file_exists
}

} // verus!
