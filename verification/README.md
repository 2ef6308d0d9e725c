# ue_doctor

Health checks for Unreal Engine 5 project folders, verified with Verus.

- `src/` is the verified library. The rules take what was read from the
  project folder as plain values (`project_file` for the rules that read the
  `.uproject` JSON, `layout` for the rules about folders and files),
  `doctor::diagnose` runs all of them in report order, and `finding` holds
  findings and the tally of a run. `json` parses with `serde_json` into a
  plain `JsonValue`; `text` holds the proved string helpers; `seq_lemmas` holds shared
  sequence facts; `laws` states properties of whole runs.
- `app/` is the command-line program: argument parsing, file system reads,
  glob matching (target files are passed by file name), colored or JSON
  output, and the exit status.
- `tests/` runs the rules on concrete values.

## Rules

| Id | Rule |
|----|------|
| P001 | `.uproject` is valid JSON |
| P002 | Engine association set |
| M001 | Modules listed in `.uproject` |
| M002 | Module `Source/` folders exist |
| T001 | `.Target.cs` files exist |
| T002 | Editor target exists |
| T003 | Game target exists |
| B001 | `.Build.cs` files exist |
| D001 | `Content/` exists |
| D002 | `Config/` exists |
| D003 | `DerivedDataCache/` not committed |
| C001 | `DefaultEngine.ini` exists |
| C002 | `DefaultGame.ini` exists |
| C003 | Default map configured |
| C004 | No stale config backups |
| PL001 | Enabled plugins have `.uplugin` files |
| PL002 | No duplicate plugin entries |
| PL003 | Plugin folders have `.uplugin` files |
| SC001 | `.gitignore` exists (git repositories) |
| SC002 | `Intermediate`, `Saved`, `DerivedDataCache` ignored |
| SC003 | `.gitattributes` exists |
| SC004 | `.uasset` tracked by LFS |
| A001 | No spaces in the project path |
| A002 | `Content/` naming conventions |
| A003 | `StarterContent` removed |
| A004 | No empty `Content/` folders |
