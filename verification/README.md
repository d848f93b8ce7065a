# pcm_core

The rules of a school's principal-recommendation manager, written in Verus and
proved against their contracts: fixed-point scores and their display text,
area scores from range and category tables, competition ranking, tie-aware
quota filling per track and per university, the round lifecycle, the checks of
uploaded tables, base data and rank lists, university settings, sign-in and
tokens, and the sheets and CSV files the program hands out.

- `src/` is the verified library. Each module states its rules as spec
  functions and proves its executable functions against them; the laws that
  relate several functions are public proof functions (`law_*`).
- Calls into outside crates (jsonwebtoken, bcrypt, csv, zip, serde_json) sit
  behind small trusted wrappers whose doc comments say what is claimed.
- `tests/` runs the library on concrete values.
- `app/` is the HTTP server around the library: it reads requests, the
  database and uploaded files, asks the library what to do, and writes back.
