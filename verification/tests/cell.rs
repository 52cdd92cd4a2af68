use std::any::Any;

use resman::Cell;
use resman::CellRef;
use resman::CellRefMut;

#[test]
fn allow_multiple_reads() {
    let mut cell = Cell::new(5);

    let a = cell.borrow();
    let b = cell.borrow();

    assert_eq!(10, *cell.get() + *cell.get());

    cell.release(a);
    cell.release(b);
}

#[test]
fn allow_clone_reads() {
    let mut cell = Cell::new(5);

    let a = cell.borrow();
    let b = cell.clone_ref(&a);

    assert_eq!(10, *cell.get() + *cell.get());

    cell.release(a);
    cell.release(b);
}

#[test]
fn allow_single_write() {
    let mut cell = Cell::new(5);

    {
        let a = cell.borrow_mut();
        let v = cell.replace(0);
        cell.set(v + 2);
        let v = cell.replace(0);
        cell.set(v + 3);
        cell.release_mut(a);
    }

    let r = cell.borrow();
    assert_eq!(10, *cell.get());
    cell.release(r);
}

#[test]
fn try_write_and_read() {
    let mut cell = Cell::new(5);

    let a = cell.try_borrow_mut().unwrap();
    cell.set(7);

    assert!(cell.try_borrow().is_none());

    cell.set(8);
    cell.release_mut(a);
}

#[test]
fn try_write_and_write() {
    let mut cell = Cell::new(5);

    let a = cell.try_borrow_mut().unwrap();
    cell.set(7);

    assert!(cell.try_borrow_mut().is_none());

    cell.set(8);
    cell.release_mut(a);
}

#[test]
fn try_read_and_write() {
    let mut cell = Cell::new(5);

    let _a = cell.try_borrow().unwrap();

    assert!(cell.try_borrow_mut().is_none());
}

#[test]
fn cloned_borrow_does_not_allow_write() {
    let mut cell = Cell::new(5);

    let a = cell.borrow();
    let b = cell.clone_ref(&a);

    cell.release(a);

    assert!(cell.try_borrow_mut().is_none());
    assert_eq!(5, *cell.get());

    cell.release(b);
}

#[test]
fn ref_with_non_sized() {
    let mut cell = Cell::new(vec![2, 3, 4, 5]);

    let r: CellRef<Vec<i32>> = cell.borrow();

    assert_eq!(&[2, 3, 4, 5][..], cell.get().as_slice());

    cell.release(r);
}

#[test]
fn ref_with_non_sized_clone() {
    let mut cell = Cell::new(vec![2, 3, 4, 5]);

    let r: CellRef<Vec<i32>> = cell.borrow();
    let rr = cell.clone_ref(&r);

    assert_eq!(&[2, 3, 4, 5][..], cell.get().as_slice());
    assert_eq!(cell.reader_count(), 2);

    assert_eq!(&[2, 3, 4, 5][..], cell.get().as_slice());
    assert_eq!(cell.reader_count(), 2);

    cell.release(r);
    cell.release(rr);
}

#[test]
fn ref_with_trait_obj() {
    let mut cell: Cell<Box<dyn Any>> = Cell::new(Box::new(2i32));

    let ra = cell.borrow();

    assert_eq!(cell.get().downcast_ref::<i32>().unwrap(), &2i32);

    cell.release(ra);
}

#[test]
fn ref_mut_with_non_sized() {
    let mut cell = Cell::new(vec![2, 3, 4, 5]);

    let r: CellRefMut<Vec<i32>> = cell.borrow_mut();

    let v = cell.replace(Vec::new());
    assert_eq!(&[2, 3, 4, 5][..], v.as_slice());
    cell.set(v);

    cell.release_mut(r);
}

#[test]
fn ref_mut_with_trait_obj() {
    let mut cell: Cell<Box<dyn Any>> = Cell::new(Box::new(2i32));

    let ra = cell.borrow_mut();

    let b = cell.replace(Box::new(()));
    assert_eq!(b.downcast_ref::<i32>().unwrap(), &2i32);
    cell.set(b);

    cell.release_mut(ra);
}

#[test]
fn ref_map_box() {
    let mut cell = Cell::new(Box::new(10usize));

    let r: CellRef<Box<usize>> = cell.borrow();
    assert_eq!(&**cell.get(), &10);
    cell.release(r);

    let rr: CellRef<usize> = cell.borrow().map();
    assert_eq!(**cell.get(), 10);
    cell.release(rr);
}

#[test]
fn ref_map_preserves_flag() {
    let mut cell = Cell::new(Box::new(10usize));

    let r: CellRef<Box<usize>> = cell.borrow();
    assert_eq!(cell.reader_count(), 1);
    let nr: CellRef<usize> = r.map();
    assert_eq!(cell.reader_count(), 1);

    cell.release(nr);
}

#[test]
fn ref_map_retains_borrow() {
    let mut cell = Cell::new(Box::new(10usize));

    let r1: CellRef<usize> = cell.borrow().map();
    assert_eq!(cell.reader_count(), 1);

    let r2: CellRef<usize> = cell.borrow().map();
    assert_eq!(cell.reader_count(), 2);

    cell.release(r1);
    cell.release(r2);
}

#[test]
fn ref_map_drops_borrow() {
    let mut cell = Cell::new(Box::new(10usize));

    let r: CellRef<usize> = cell.borrow().map();

    assert_eq!(cell.reader_count(), 1);
    cell.release(r);
    assert_eq!(cell.reader_count(), 0);
}

#[test]
fn ref_mut_map_box() {
    let mut cell = Cell::new(Box::new(10usize));

    {
        let r: CellRefMut<Box<usize>> = cell.borrow_mut();
        let b = cell.replace(Box::new(0));
        assert_eq!(&*b, &10);
        cell.set(b);
        cell.release_mut(r);
    }
    {
        let rr: CellRefMut<usize> = cell.borrow_mut().map();
        let b = cell.replace(Box::new(0));
        assert_eq!(*b, 10);
        cell.set(b);
        cell.release_mut(rr);
    }
}

#[test]
fn ref_mut_map_preserves_flag() {
    let mut cell = Cell::new(Box::new(10usize));

    let r: CellRefMut<Box<usize>> = cell.borrow_mut();
    assert!(cell.is_write_locked());
    let nr: CellRefMut<usize> = r.map();
    assert!(cell.is_write_locked());

    cell.release_mut(nr);
}

#[test]
fn ref_mut_map_drops_borrow() {
    let mut cell = Cell::new(Box::new(10usize));

    let r: CellRefMut<usize> = cell.borrow_mut().map();

    assert!(cell.is_write_locked());
    cell.release_mut(r);
    assert!(!cell.is_write_locked());
    assert_eq!(cell.reader_count(), 0);
}

#[test]
fn replace_returns_prior_value() {
    let mut cell = Cell::new(5u32);

    let w = cell.borrow_mut();
    let prior = cell.replace(6);
    cell.release_mut(w);

    assert_eq!(5, prior);
    assert_eq!(6, *cell.get());
}

#[test]
fn into_inner_returns_value() {
    let cell = Cell::new(7u32);

    assert_eq!(7, cell.into_inner());
}

#[test]
fn get_mut_bypasses_flag() {
    let mut cell = Cell::new(5u32);

    *cell.get_mut() = 9;

    assert_eq!(9, *cell.get());
    assert!(cell.try_borrow_mut().is_some());
}

#[test]
fn check_flag_read_counts_up() {
    let mut cell = Cell::new(1u8);

    assert!(cell.check_flag_read());
    assert!(cell.check_flag_read());
    assert_eq!(cell.reader_count(), 2);

    assert!(!cell.check_flag_write());
}

#[test]
fn check_flag_write_takes_sentinel() {
    let mut cell = Cell::new(1u8);

    assert!(cell.check_flag_write());
    assert!(cell.is_write_locked());

    assert!(!cell.check_flag_read());
    assert!(!cell.check_flag_write());
}
