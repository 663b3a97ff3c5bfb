# soa_iter

Row-by-row iteration over a struct of arrays, verified with Verus.

Records `{ a: u32, b, c, d: F }` are stored as four columns; a row is handed
out as a struct of references into the columns. The library walks the
columns in several ways and states each walk over the rows it yields:

- `straightforward`, `old_slice`, `old2_slice`: four independent column
  cursors (`column::ColumnIter`);
- `zipped`, `new_slice`, `SSlice::iter`: the four cursors zipped
  (`zip4::Zip4`), which stops at the shortest column;
- `indexed`, `new2_slice`: one index from the front and one from the back.

`bench` folds a step function over each walk (`fold` says what such a fold
can give), `agreement` proves that the walks go over the same rows when the
columns have one length, and `data` draws random integer columns.

`app/` holds the program: it draws the columns, sums the rows' values
(floating point, which the library leaves to its caller) and prints them.
