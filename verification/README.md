# nitroterm

A terminal tool for project management: release notes from the git history,
version bumps and releases, dependency updates for several package managers,
translation sync through Gemini, code-quality runs and GitHub label sets.

- `src/` is the library, written in Verus: every decision the tool makes
  (tag selection and ordering, commit categories, contributor statistics, the
  release-notes document, version arithmetic, manifest reading, the steps of
  dependency updates and label runs, settings storage rows, JSON paths of
  translation files, menu answers) is an executable function with a contract,
  proved by Verus. Calls into chrono, regex and semver stand behind small
  trusted wrappers whose contracts are documented where they are declared.
- `app/` is the command-line program around it: argument parsing, prompts,
  git access, processes, files, the settings database and HTTP requests.
- `tests/` runs the library on concrete values.
